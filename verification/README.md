# lfm2-audio

Speech recognition, speech synthesis and spoken dialogue around the LFM2-Audio
ONNX models, with the decision logic written in Verus and proved against its
contracts.

## Layout

- `src/` — the verified library.
  - `cache.rs`: layout and update rules of the decoder's key/value and
    convolution caches.
  - `tts.rs`, `interleaved.rs`, `chat.rs`: the generation state machines
    (text decoding, audio-code frames, depthformer steps, interleaved
    text/audio schedule, conversation history, the server's session table).
  - `streaming.rs`: the streaming audio decoder's window and sample accounting.
  - `tokenizer.rs`, `text.rs`: prompt construction, special tokens and the
    calls into the `tokenizers` crate.
  - `embeddings.rs`, `sessions.rs`, `model.rs`, `config.rs`, `constants.rs`:
    embedding tables, model file locations, model metadata.
  - `server.rs`, `websocket.rs`, `settings.rs`, `cli.rs`: request validation,
    the websocket protocol and the order of a streamed reply, worker routing,
    output pacing, server settings and interactive command parsing.
- `tests/` — tests of the library on concrete values.
- `app/` — the runtime around the library: ONNX inference, audio signal
  processing, WAV input and output, the command-line front end, the HTTP /
  websocket server and its optional NDJSON session trace.
