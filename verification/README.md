# brok

A chat bot. It reads a chat, answers the messages that begin with its name, and keeps a few
sentences on the users that it knows. Questions that look like mathematics go to the calculator
`bc` first, questions about the weather to wttr.in, and everything goes to a language model, which
writes the answer.

- `src/` holds what the bot decides and remembers, proved with Verus.
  - `tool`, `calculator`, `weather`: which tool a prompt asks for, and what the tool's answer means.
  - `model`, `response`, `update`: what the model is asked, and what is made of its answer.
  - `session`, `laws`: the bot's memory, and what always holds of it.
  - `text`, `offset`, `list`: searching, cutting and removing.
  - `unicode`: what is believed, without proof, of std's characters and strings.
- `app/` runs the bot: arguments, chat, HTTP, files, and the calculator's process.
- `tests/` runs the library on examples.
