# pw_cast

A PipeWire sink whose sound is cast to a Chromecast: what is played to the sink is captured,
encoded as MP3, and served over HTTP to the device, which also gets the title of what is playing
and a cover drawn for it.

The library under `src/` is verified with Verus:

- `device`, `device_laws`: reading Cast devices out of mDNS records.
- `discovery`, `discovery_laws`: when a search for devices ends, and which device is chosen.
- `sink`, `sink_laws`: titles and samples out of what PipeWire hands over.
- `handler`, `handler_laws`: the MP3 stream of a listener, over `mp3lame-encoder`, and the answer
  to a request.
- `markup`, `encoding`, `cover`, `cover_laws`: the cover, over `svg` and `base64`.
- `chromecast`: the steps of a casting session.
- `options`, `text`: command line options; text searching and numerals.

The program under `app/` does the input and output: mDNS, the Cast connection, the HTTP server
and the PipeWire stream, for which PipeWire's development files must be installed.
