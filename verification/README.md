# StateMaster

A database of finite state machines. A machine definition fixes the states of
an entity, the events that move it from one state to the next, the guards that
may veto a move and the effects that a move emits. Every move is logged under a
gap-free sequence number, and the log is streamed to subscribers.

`src/` is the library. It is written in Verus: what each function does is stated
in its contract and proved.

| Module    | What it holds                                                          |
|-----------|------------------------------------------------------------------------|
| `text`, `order`, `names`, `clock`, `id`, `json` | values that everything else is made of |
| `fsm`     | machines, their validation, the builder, and the planner               |
| `storage` | the model of a store, the trait, and the store on an embedded database |
| `engine`  | transitions, idempotency, guards, subscriptions, delivery              |
| `proto`   | frames, messages, and how they are written as bytes                    |
| `wire`    | the server's side of a session: handshake, commands, subscriptions, keys |
| `sdk`     | the client's side: requests, replies, retries, routing                 |
| `daemon`  | settings, the settings file, health and metrics                        |
| `shell`   | the interactive shell and the administration tool                      |

What holds of the library as a whole is stated by the public proof functions
whose names begin with `law_`.

A fault is never invented: where a function reports that the database, the store
or a channel failed, its contract says which call on it did.

A database is tested before it is used: `RedbEngine::from_database` reads the
tables through and refuses those that hold no store in order. Of a message body
only the known keys count, and whatever stands under the others is skipped. A
definition in which a known field comes twice is refused.

What is taken on trust are the contracts of outside functions: `serde_json`,
`rmp-serde`, `toml`, `bytes`, `chrono`, `uuid`, `rand`, `redb`, `rustls-pemfile`,
the channels of `tokio`, and a few functions of the standard library. Each stands
in a small wrapper or specification whose comment says what is claimed.

`app/` is the rest, in ordinary Rust: sockets, TLS sessions, files, the terminal,
and the programs `smdbd`, `smash` and `smdbctl`. `tests/` runs the library.
