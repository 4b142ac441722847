# side-huddle

Detects Teams, Zoom and Google Meet meetings on the local machine and records them
as WAV files.

* `src/` is the library, verified with Verus: what a meeting is and when it begins and
  ends, which window and which participants belong to it, the course of a request to
  record, mixing and cutting of audio streams, the bytes of the files, and the form in
  which events reach other languages.
* `app/` is the host: threads and timers, CoreAudio, CoreGraphics, Accessibility and
  AVFoundation on macOS, files, and the C, Node.js and Python bindings.
* `tests/` holds tests of the library.

The library touches the system in two places only: it sends and receives on the
channels that carry audio, waiting where a channel makes it wait, and it draws the
random part of the name of an audio device. For everything else the host tells it what
has happened, and the library answers with what to do next.
