# auto_tts_desktop

The core of a desktop studio that turns Vietnamese text into speech with the
Gemini TTS models: chunking and normalizing text, building prompts, deciding
what the generation queue does, managing API keys, and exporting subtitles and
audio. The library is written in Verus: its logic is proved against its
contracts. The calls it makes into outside crates and std (regex, SHA-256,
base64, WAV writing, the clock, case mapping) go through small trusted
wrappers, each marked `#[verifier::external_body]`, whose contracts are taken
as given.

Layout:

- `src/text/`: chunker (heading, paragraph, sentence, clause and word levels),
  normalizer, prompt builder, dialogue parser, fingerprints, SRT/VTT/LRC export,
  document checks.
- `src/api/`: request and response shapes of the Gemini API, audio extraction,
  error classification, the provider's voices and models.
- `src/queue/`: the queue actor and the synthesis worker's loop as state
  machines, retry and back-off planning.
- `src/security/`: input validation, file-name and path policy, the in-memory
  credential store with round-robin key rotation (each call hands out the next
  available key and moves the rotation index past it), and the clock of
  America/Los_Angeles, whose midnight renews a key's daily quota.
- `src/storage/`, `src/models/`, `src/audio/`, `src/commands/`: records, statuses,
  PCM/WAV handling, cache eviction, and the decisions behind the commands.
- `app/`: SQLite storage, the OS keyring, HTTP calls, files on disk and the
  tokio queue runtime around the library.
- `tests/`: tests of the library on concrete values.
