# Drawio Collab Server

A server on which several people edit draw.io diagrams together: rooms over WebSocket, a file API, a
history kept in Git, changes by a language model, and access tokens.

## Layout

- `src/` is the logic, written in Verus and proved: who may do what (`auth`), which names and paths
  are accepted (`paths`), rooms and how they are loaded (`room`, `loading`, `state`), what happens on a
  connection (`messages`, `ws`), requests about files (`files`, `listing`, `upload`), the history
  (`git_versioning`, `versions`), the watcher of the data directory (`watcher`), and language models
  (`streams`, `xml`, `ai`). `text` and `color` hold what these need of strings and colours. `outside`
  holds what is taken without proof from other crates; each item there says what it claims.
- `app/` is the program around it: routes, files, sockets, Git, HTTP.
- `tests/` runs the library on concrete values.

The library does no input or output. A request is admitted or refused by one function; where
something has to be read or written before it can be answered, another function takes what came of
that and gives the answer. What goes back and forth several times is a step function from an event to
the next action.

## Running

- `PORT`: port to listen on (default: 3000)
- `DRAWIO_TOKEN`: access token (default: a random one, shown in the log)
- `DRAWIO_ADMIN_TOKEN`: token for setting the Git remote and pushing to it, and nothing else (default: a random one, shown
  in the log)
- `DRAWIO_REQUIRE_TOKEN`: require the token for all file operations (default: true)
- `DATA_DIR`: directory of the diagrams (default: data)
- `OPENROUTER_API_KEY`, `OLLAMA_URL`: the key for one provider of language models, the address of the
  other
