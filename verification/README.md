# modelcheck

A desktop playground that sends one prompt to several AI models (a local
ONNX model and cloud APIs) and shows their answers side by side.

The crate is a Verus library holding the program's decisions, each with a
contract proved by Verus:

- `ai` — provider status and compute modes, the registry and which models
  a prompt goes to;
- `providers` — provider names, API-key status, the local chat template,
  reading the answer out of a Gemini reply;
- `local` — what makes a local installation, which files get loaded;
- `generation` — key/value cache layout, position ids, logits range,
  stop tokens, the filter that hides `<think>` sections and the loop
  control (at most the step limit, nothing after a stop token);
- `auth` — token refresh timing, the CSRF-checked login callback and the
  check that the OAuth endpoints are URLs;
- `chat` — session names, saved sessions, fanning a prompt out to models
  and routing the streamed answers back;
- `markdown` — folding CommonMark events (from `pulldown-cmark`) into a
  node tree, with a proof that balanced streams are reproduced exactly;
- `package` — the MSIX packaging target and asset list;
- `text` — character-level string operations with exact specifications.

`app/` is the desktop program around it: the Dioxus UI, HTTP, OAuth with
the browser and the key ring, ONNX inference and floating-point sampling.
