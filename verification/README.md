# jcode_copilot

The rules of jcode's GitHub Copilot provider, written in Rust and verified with
[Verus](https://github.com/verus-lang/verus).

- `src/` is the library. Its functions carry contracts that Verus proves, apart
  from the wrappers named below. The contracts speak of mathematical models: texts are sequences of
  characters, JSON values and events have views, registries are maps.
- `tests/` runs the library on concrete values.
- `app/` is the runtime around the library: HTTP, files, the environment, threads
  and tasks. Verus does not see it.

## Modules

| Modules | What they decide |
| --- | --- |
| `text`, `keyed`, `json`, `records`, `message` | texts, registries by text, JSON values, records in JSON texts, messages and events |
| `chat_messages`, `chat_laws`, `chat_request`, `messages_request`, `responses_request` | the bodies of requests on the three routes |
| `stream`, `stream_chat`, `sse`, `stream_messages`, `stream_responses` | the decoding of streamed replies |
| `stream_request`, `errors` | routing, sending and trying again; what a refusal tells the user |
| `copilot_catalog`, `catalog`, `catalog_store`, `wire` | the model catalog: what it says, how it is read and kept |
| `copilot_catalog_pricing`, `route_cost` | prices from the catalog |
| `copilot_enterprise`, `credentials` | deployments, seats and the endpoints discovered for them; logins |
| `provider`, `startup`, `context_limits`, `context_limit_sync` | a session's choices, how it starts, context windows |
| `multi_provider`, `session_provider`, `spawn_provider` | who serves a bare model, which provider a session has, what a spawned worker uses |
| `herdr`, `herdr_sync` | lifecycle reports to the Herdr terminal manager |
| `update_nightly` | updates to the nightly build |

Public proof functions named `law_...` state what holds across several calls.

## What is trusted

The contracts of a few small wrappers are believed without proof. Each stands in
front of one outside function, with a comment that says what is claimed of it:

- `serde_json`: reading and writing JSON text, with two converters between its
  values and the library's that carry no contract (`json`), and cutting a text
  into values (`records`);
- `sha2` and `hex`: the key of a token (`copilot_enterprise`);
- the standard library: `String::push`, `str::to_lowercase` and
  `String::from_utf8_lossy` (`text`).
