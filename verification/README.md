# ai playground

A command line tool and a local web page for talking to language models through
OpenAI-compatible chat completions: OpenRouter, DeepSeek, GigaChat, Kimi, or any
compatible endpoint.

- `src/` is the library: profiles and tokens, provider requests and replies, the
  price catalog, the swarm of agents behind one chat window with its task
  lifecycle, token accounting, and what the commands and the web page decide.
  Verus proves every function against its contract. Public proof functions state
  what holds across functions, such as that a task never jumps a stage, that a
  stored token is shared by the profiles of a provider, and that a reply that
  breaks an invariant is withheld.
- `app/` is the program: arguments, files, the keychain, HTTP, the web server and
  floating-point amounts.
- `tests/` runs the library.

Calls into outside crates stand behind small functions marked
`#[verifier::external_body]`, whose doc comments say what is believed of them.
