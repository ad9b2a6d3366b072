# trusdx_bridge

Carries audio and CAT commands between a truSDX transceiver, a virtual sound card and the clients
of a rigctl server.

`src/` holds the decisions, verified with Verus: how the bytes of the radio are taken apart
(`demux`), how the loop between radio and sound card goes on (`bridge`), what a client of the server
is answered (`rigctl`) and what clients share (`clients`), which steps a command on the serial line has and what a failure in it means
(`trusdx`), which device the radio is (`device`), the samples and the streams (`audio`), and what is
watched besides (`monitor`, `shutdown`, `gui`). `text`, `number` and `utf8` are what these stand on.
`laws` states what holds across them.

`app/` opens the ports, reads, writes, sleeps and draws, as `src/` says. What is a fraction (the
levels that are shown, the loudness below which nothing is sent, a frequency with decimals) is
computed there.
