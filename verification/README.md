# callme

Audio calls between nodes. Audio is recorded and played on the devices of the host, encoded
with Opus and carried over peer-to-peer connections, with optional echo cancellation.

`src/` is the library: the buffers that audio passes through, the rules by which devices and
their configurations are chosen, and the state machines of calls, tracks and screens. It is
written in Verus, and every function is proved to meet its contract. What the proofs take for
granted of outside crates is stated at the small functions that call them.

* `audio` - formats, devices, and the stages of playing, recording and processing
* `codec` - the stages before and after Opus
* `rtc` - codecs, frames, tracks and the flows of a connection
* `worker`, `run`, `net` - the life of calls and what an endpoint is set up with
* `app` - the graphical interface without its graphics
* `web_audio` - audio on web audio nodes
* `duplex` - a plain path for one call
* `frames`, `ring`, `payload`, `call_table`, `node_id`, `text` - what the others build on

A sample is held as its 32-bit pattern. The library moves samples and never computes with
them: what does (the codec, the resampler, the audio processor, the sum of two samples) is
handed to it.

`app/` is the program around the library: the command line, the window, and all that talks
to devices, codecs and the network. `tests/` runs the library on concrete values.
