# tunelock

The verified core of the TuneLock DJ instrument, written in Verus.

`src/` is the library. Its functions carry contracts that Verus proves,
and the laws that tie several functions together are stated as public
proof functions (`law_*`). Seven small functions are trusted rather than
proved, because their bodies only call outside code: `char_is_numeric`,
`char_is_alphanumeric`, `to_lowercase` and `string_push` in `text` (std's
`char::is_numeric`, `char::is_alphanumeric`, `str::to_lowercase` and
`String::push`), `decimal_text` in `repair` (std's `i64::to_string`, whose
digits are stated exactly), and `parse_json` and `json_string` in `assist`
(`serde_json::from_str` and `serde_json::Value::String`). The results that
are not stated exactly are named by `numeric_char`, `alphanumeric_char`,
`lowercase_of`, `is_json_text`, `json_value_of` and `json_string_value`.
The std and serde_json types `Instant`, `Value` and `Error` are declared
so that values of them can be carried.

- `schedule` — the realtime callback's pending-command list, kept sorted by
  output frame, and the block walk that applies each command at its exact
  frame.
- `command`, `control` — player, bus and command vocabulary; the transport,
  mute, solo and bus flags of the player slots and the commands that change
  them.
- `transport` — transport state of the two-deck program.
- `meter` — the meter snapshot the UI polls (floating-point readings travel
  as their bit patterns).
- `ring` — the power-of-two sample ring behind the time stretcher.
- `device` — output devices, the user's configuration, and how it resolves.
- `keys`, `timeline`, `analysis`, `genre` — the 24-key vocabulary and key
  compatibility, the analysis window and segment split, the key timeline's
  verdict, profile rotation, and genre families.
- `text`, `metadata`, `setlist`, `similarity`, `assist` — filename parsing,
  name normalisation, word overlap, the setlist flow summary, and the
  message and JSON handling of the local LLM assist features.
- `repair` — the prompts of the metadata-repair and genre-inference
  features, and how a model's reply (or its absence) becomes proposals.

`app/` is the program around it: decoding, the audio stream, the
realtime callback's floating-point mixing and time stretching (built on
the library's pending list, block walk, player flags, ring and meters),
the HTTP client and the serialisable copies of the library's types.
`tests/` exercises the library.
