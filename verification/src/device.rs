//! Which serial device the radio is.

use vstd::prelude::*;

use crate::text;

verus! {

/// The speed of the serial line.
pub const BAUD_RATE: u32 = 115200;

/// How long a read from the serial line waits, in milliseconds.
pub const READ_TIMEOUT_MS: u64 = 10;

/// What is known of the USB device behind a serial device.
#[derive(Debug, PartialEq, Eq)]
pub enum UsbIds {
    /// The device could not be followed to its USB device, or its identifiers could not be read.
    Failed,
    /// There is no identifier of the vendor, or none of the product.
    Missing,
    /// What the files with the two identifiers hold.
    Known { vendor: String, product: String },
}

/// An entry of the directory of devices.
#[derive(Debug, PartialEq, Eq)]
pub enum DevEntry {
    /// The entry could not be read, or its name is no text.
    Unreadable,
    /// An entry and, where its name is that of a USB serial device, the USB device behind it.
    Named { name: String, ids: UsbIds },
}

/// What an entry means for the search.
pub enum Verdict {
    /// Look at the next entry.
    Skip,
    /// Give up.
    Fail,
    /// This is the radio, under this path.
    Found(Seq<char>),
}

/// Whether `name` is that of a USB serial device.
pub open spec fn is_usb_serial(name: Seq<char>) -> bool {
    name.len() >= 6 && name.take(6) == "ttyUSB"@
}

/// Whether the identifiers are those of a CH340, in either case of their letter.
pub open spec fn is_ch340(vendor: Seq<char>, product: Seq<char>) -> bool {
    &&& text::trimmed(vendor) == "1a86"@ || text::trimmed(vendor) == "1A86"@
    &&& text::trimmed(product) == "7523"@
}

/// What `entry` means for the search.
pub open spec fn verdict(entry: DevEntry) -> Verdict {
    match entry {
        DevEntry::Unreadable => Verdict::Fail,
        DevEntry::Named { name, ids } => if !is_usb_serial(name@) {
            Verdict::Skip
        } else {
            match ids {
                UsbIds::Failed => Verdict::Fail,
                UsbIds::Missing => Verdict::Skip,
                UsbIds::Known { vendor, product } => if is_ch340(vendor@, product@) {
                    Verdict::Found("/dev/"@ + name@)
                } else {
                    Verdict::Skip
                },
            }
        },
    }
}

/// Whether the first entries, `n` of them, leave the search open.
pub open spec fn all_skipped(entries: Seq<DevEntry>, n: int) -> bool {
    forall|j: int| 0 <= j < n ==> verdict(#[trigger] entries[j]) is Skip
}

/// Whether `name` is that of a USB serial device.
pub fn usb_serial_name(name: &str) -> (r: bool)
    ensures
        r == is_usb_serial(name@),
{
    let v = text::chars_of(name);
    if v.len() < 6 {
        return false;
    }
    assert(v@.subrange(0, 6) =~= name@.take(6));
    text::spells(vstd::slice::slice_subrange(v.as_slice(), 0, 6), "ttyUSB")
}

/// Where the kernel links the serial device `name` to the device behind it.
pub fn sysfs_device_path(name: &str) -> (path: String)
    ensures
        path@ == "/sys/class/tty/"@ + name@ + "/device"@,
{
    let mut path = String::new();
    text::append(&mut path, "/sys/class/tty/");
    text::append(&mut path, name);
    text::append(&mut path, "/device");
    assert(path@ =~= "/sys/class/tty/"@ + name@ + "/device"@);
    path
}

/// Whether the identifiers are those of a CH340.
pub fn matches_ch340(vendor: &str, product: &str) -> (r: bool)
    ensures
        r == is_ch340(vendor@, product@),
{
    let v = text::chars_of(vendor);
    let p = text::chars_of(product);
    let v = text::trim(v.as_slice());
    let p = text::trim(p.as_slice());
    (text::spells(v, "1a86") || text::spells(v, "1A86")) && text::spells(p, "7523")
}

/// The path that the search among `entries` comes to, if it comes to one.
pub open spec fn found_path(entries: Seq<DevEntry>) -> Option<Seq<char>>
    decreases entries.len(),
{
    if entries.len() == 0 {
        None
    } else {
        match verdict(entries[0]) {
            Verdict::Skip => found_path(entries.skip(1)),
            Verdict::Fail => None,
            Verdict::Found(path) => Some(path),
        }
    }
}

/// Entries that leave the search open make no difference to it.
proof fn skipped_entries_do_not_count(entries: Seq<DevEntry>, n: int)
    requires
        0 <= n <= entries.len(),
        all_skipped(entries, n),
    ensures
        found_path(entries) == found_path(entries.skip(n)),
    decreases n,
{
    if n > 0 {
        let rest = entries.skip(1);
        assert(verdict(entries[0]) is Skip);
        assert forall|j: int| 0 <= j < n - 1 implies verdict(#[trigger] rest[j]) is Skip by {
            assert(rest[j] == entries[j + 1]);
        }
        skipped_entries_do_not_count(rest, n - 1);
        assert(rest.skip(n - 1) =~= entries.skip(n));
    } else {
        assert(entries.skip(0) =~= entries);
    }
}

/// Looks through the entries in order for the radio: the first CH340 on a USB serial device. An
/// entry that fails before one is found ends the search.
pub fn find_trusdx_device(entries: &Vec<DevEntry>) -> (r: Option<String>)
    ensures
        match r {
            Some(path) => found_path(entries@) == Some(path@),
            None => found_path(entries@) is None,
        },
        match r {
            Some(path) => exists|i: int|
                0 <= i < entries@.len() && all_skipped(entries@, i) && verdict(
                    #[trigger] entries@[i],
                ) == Verdict::Found(path@),
            None => all_skipped(entries@, entries@.len() as int) || exists|i: int|
                0 <= i < entries@.len() && all_skipped(entries@, i) && verdict(
                    #[trigger] entries@[i],
                ) is Fail,
        },
{
    let mut i: usize = 0;
    while i < entries.len()
        invariant
            i <= entries@.len(),
            all_skipped(entries@, i as int),
        decreases entries@.len() - i,
    {
        proof {
            skipped_entries_do_not_count(entries@, i as int);
            assert(entries@.skip(i as int)[0] == entries@[i as int]);
        }
        match &entries[i] {
            DevEntry::Unreadable => {
                assert(verdict(entries@[i as int]) is Fail);
                return None;
            },
            DevEntry::Named { name, ids } => {
                if usb_serial_name(name.as_str()) {
                    match ids {
                        UsbIds::Failed => {
                            assert(verdict(entries@[i as int]) is Fail);
                            return None;
                        },
                        UsbIds::Missing => {},
                        UsbIds::Known { vendor, product } => {
                            if matches_ch340(vendor.as_str(), product.as_str()) {
                                let mut path = String::new();
                                text::append(&mut path, "/dev/");
                                text::append(&mut path, name.as_str());
                                assert(path@ =~= "/dev/"@ + name@);
                                assert(verdict(entries@[i as int]) == Verdict::Found(path@));
                                return Some(path);
                            }
                        },
                    }
                }
            },
        }
        i += 1;
    }
    proof {
        skipped_entries_do_not_count(entries@, i as int);
    }
    None
}

/// How many bits of data a character has on the line.
#[derive(Clone, Copy, Debug, PartialEq, Eq, Structural)]
pub enum DataBits {
    Five,
    Six,
    Seven,
    Eight,
}

/// Which parity bit a character has on the line.
#[derive(Clone, Copy, Debug, PartialEq, Eq, Structural)]
pub enum Parity {
    Off,
    Odd,
    Even,
}

/// How many stop bits a character has on the line.
#[derive(Clone, Copy, Debug, PartialEq, Eq, Structural)]
pub enum StopBits {
    One,
    Two,
}

/// How the flow on the line is controlled.
#[derive(Clone, Copy, Debug, PartialEq, Eq, Structural)]
pub enum FlowControl {
    Off,
    Software,
    Hardware,
}

/// What the serial line is opened with.
#[derive(Debug, PartialEq, Eq)]
pub struct SerialSetup {
    pub path: String,
    pub baud_rate: u32,
    pub data_bits: DataBits,
    pub parity: Parity,
    pub stop_bits: StopBits,
    pub flow_control: FlowControl,
    pub timeout_ms: u64,
}

/// How the serial line to the radio at `device` is opened; if there is no radio, the reason why
/// it is not.
pub fn open_trusdx_serial(device: Option<String>) -> (r: Result<SerialSetup, String>)
    ensures
        match device {
            Some(path) => r matches Ok(setup) && {
                &&& setup.path@ == path@
                &&& setup.baud_rate == 115200
                &&& setup.data_bits == DataBits::Eight
                &&& setup.parity == Parity::Off
                &&& setup.stop_bits == StopBits::One
                &&& setup.flow_control == FlowControl::Off
                &&& setup.timeout_ms == 10
            },
            None => r matches Err(reason) && reason@ == "No CH340 device found"@,
        },
{
    match device {
        Some(path) => Ok(
            SerialSetup {
                path,
                baud_rate: BAUD_RATE,
                data_bits: DataBits::Eight,
                parity: Parity::Off,
                stop_bits: StopBits::One,
                flow_control: FlowControl::Off,
                timeout_ms: READ_TIMEOUT_MS,
            },
        ),
        None => Err("No CH340 device found".to_owned()),
    }
}

/// Whether `s` starts with the name that USB serial devices have.
pub open spec fn starts_with_tty_usb(s: Seq<char>) -> bool {
    s.len() >= 6 && s[0] == 't' && s[1] == 't' && s[2] == 'y' && s[3] == 'U' && s[4] == 'S' && s[5]
        == 'B'
}

/// Whether `entry` cannot be read, or is a USB serial device of which nothing can be learned.
pub open spec fn cannot_be_read(entry: DevEntry) -> bool {
    ||| entry is Unreadable
    ||| entry matches DevEntry::Named { name, ids } && starts_with_tty_usb(name@) && ids is Failed
}

/// Whether `entry` is a USB serial device with the identifiers of the radio: 1a86, in either case,
/// and 7523, with white space around them or none.
pub open spec fn has_the_radio(entry: DevEntry) -> bool {
    entry matches DevEntry::Named { name, ids } && starts_with_tty_usb(name@) && (
    ids matches UsbIds::Known { vendor, product } && {
        let v = text::trimmed(vendor@);
        let p = text::trimmed(product@);
        &&& v == seq!['1', 'a', '8', '6'] || v == seq!['1', 'A', '8', '6']
        &&& p == seq!['7', '5', '2', '3']
    })
}

/// What the verdict on an entry is.
proof fn verdict_is_known(entry: DevEntry)
    ensures
        verdict(entry) is Fail <==> cannot_be_read(entry),
        verdict(entry) is Found <==> has_the_radio(entry),
        has_the_radio(entry) ==> (entry matches DevEntry::Named { name, ids } && verdict(entry)
            == Verdict::Found(seq!['/', 'd', 'e', 'v', '/'] + name@)),
{
    reveal_strlit("/dev/");
    assert("/dev/"@ =~= seq!['/', 'd', 'e', 'v', '/']);
    if let DevEntry::Named { name, ids } = entry {
        let (vendor, product) = if let UsbIds::Known { vendor, product } = ids {
            (vendor@, product@)
        } else {
            (Seq::empty(), Seq::empty())
        };
        identifiers_are_compared(vendor, product, name@);
    }
}

/// The radio is found under `/dev/` and the name of its device: the first USB serial device with
/// the identifiers of the radio is it, whatever its name goes on with and whatever follows it, so
/// long as everything before it could be read.
pub proof fn first_radio_is_found(entries: Seq<DevEntry>, i: int)
    requires
        0 <= i < entries.len(),
        has_the_radio(entries[i]),
        forall|j: int|
            0 <= j < i ==> !cannot_be_read(#[trigger] entries[j]) && !has_the_radio(entries[j]),
    ensures
        entries[i] matches DevEntry::Named { name, ids } && found_path(entries) == Some(
            seq!['/', 'd', 'e', 'v', '/'] + name@,
        ),
{
    passed_over(entries, i);
    verdict_is_known(entries[i]);
    assert(entries.skip(i)[0] == entries[i]);
}

/// What cannot be read before the radio is found ends the search without it.
pub proof fn unreadable_entry_ends_the_search(entries: Seq<DevEntry>, i: int)
    requires
        0 <= i < entries.len(),
        cannot_be_read(entries[i]),
        forall|j: int|
            0 <= j < i ==> !cannot_be_read(#[trigger] entries[j]) && !has_the_radio(entries[j]),
    ensures
        found_path(entries) is None,
{
    passed_over(entries, i);
    verdict_is_known(entries[i]);
    assert(entries.skip(i)[0] == entries[i]);
}

/// Where there is no radio none is found.
pub proof fn no_radio_is_made_up(entries: Seq<DevEntry>)
    requires
        forall|j: int| 0 <= j < entries.len() ==> !has_the_radio(#[trigger] entries[j]),
    ensures
        found_path(entries) is None,
    decreases entries.len(),
{
    if entries.len() > 0 {
        verdict_is_known(entries[0]);
        let rest = entries.skip(1);
        assert forall|j: int| 0 <= j < rest.len() implies !has_the_radio(#[trigger] rest[j]) by {
            assert(rest[j] == entries[j + 1]);
        }
        no_radio_is_made_up(rest);
        assert(!has_the_radio(entries[0]));
    }
}

/// What is neither the radio nor unreadable is passed over.
proof fn passed_over(entries: Seq<DevEntry>, n: int)
    requires
        0 <= n <= entries.len(),
        forall|j: int|
            0 <= j < n ==> !cannot_be_read(#[trigger] entries[j]) && !has_the_radio(entries[j]),
    ensures
        found_path(entries) == found_path(entries.skip(n)),
{
    assert forall|j: int| 0 <= j < n implies verdict(#[trigger] entries[j]) is Skip by {
        verdict_is_known(entries[j]);
        assert(!cannot_be_read(entries[j]));
    }
    skipped_entries_do_not_count(entries, n);
}

/// The identifiers of the radio are told from all others, however they are spaced: by them alone,
/// and a name of a USB serial device by how it starts.
pub proof fn identifiers_are_compared(vendor: Seq<char>, product: Seq<char>, name: Seq<char>)
    ensures
        ({
            let v = text::trimmed(vendor);
            is_ch340(vendor, product) <==> (v == seq!['1', 'a', '8', '6'] || v == seq![
                '1',
                'A',
                '8',
                '6',
            ]) && text::trimmed(product) == seq!['7', '5', '2', '3']
        }),
        is_usb_serial(name) <==> starts_with_tty_usb(name),
{
    reveal_strlit("ttyUSB");
    reveal_strlit("1a86");
    reveal_strlit("1A86");
    reveal_strlit("7523");
    assert("1a86"@ =~= seq!['1', 'a', '8', '6']);
    assert("1A86"@ =~= seq!['1', 'A', '8', '6']);
    assert("7523"@ =~= seq!['7', '5', '2', '3']);
    if name.len() >= 6 {
        let s = name;
        assert(s.take(6)[0] == s[0] && s.take(6)[1] == s[1] && s.take(6)[2] == s[2] && s.take(6)[3]
            == s[3] && s.take(6)[4] == s[4] && s.take(6)[5] == s[5]);
        if starts_with_tty_usb(s) {
            assert(s.take(6) =~= "ttyUSB"@);
        }
    }
}

} // verus!
