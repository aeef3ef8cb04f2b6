# ai_video

The verified core of a local video tagging tool that asks a local
multimodal model to summarise videos and answer questions about them.

- `src/` is the library, checked by Verus: the analysis queue and its
  state machine, the checks on the model's requests for frames and audio,
  cleanup of the model's JSON replies, the streamed-reply reader, the text
  of every prompt, the status panel's history and typewriter, cache file
  names, the stable video hash and the ordering of scanned videos.
- `app/` is the program around it: directory walking, ffprobe/ffmpeg runs,
  HTTP calls to the model server, the SQLite store, prompt files and the
  command-line front end. Everything that computes with floating-point
  values (timestamps, durations, frame rates) stays there and hands the
  library integers and already-formatted text.
- `tests/` runs the library on concrete values.
