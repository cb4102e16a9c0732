# flv_publisher

Publishes an FLV file to an RTMP server: it reads the tags of the file, waits until each is due, and
sends video and audio to the server as they are.

    flv_publisher --file recording.flv --server rtmp://host/app/stream_key

`src/` is the library. It does no I/O, and its code is verified with Verus:

- `flv`, `flv_reader` and `be` read the headers of the file and of its tags;
- `pacing` says how long to wait before a tag goes out;
- `endpoint` and `text` take the server's URL apart;
- `handshake` runs the RTMP handshake, `inbound` cuts what arrives into chunks;
- `amf`, `chunks` and `intake` tell beforehand whether the RTMP session can take what arrives;
- `session` puts contracts on the RTMP session of `rml_rtmp`;
- `publisher` decides what to ask of the session and what to do with its answers;
- `transcript` says what a whole file becomes;
- `error` has what can go wrong, `stream` the trait of connections that can be split.

Proof functions whose names begin with `law_` state what holds of the library as a whole.

What the library has from other crates (`rml_rtmp`, `url`, `nom`, `bytes`) it calls through small
functions marked `external_body`. Their contracts are not proved; each says what it claims.

`app/` is the program around the library: arguments, file, network and log. `tests/` runs the library,
with a server session of `rml_rtmp` as the other side.
