# heart7

The card game Seven of Hearts for four players: the seven of hearts opens,
each suit grows as a chain from its seven down to the ace and up to the
king, and a player who cannot lay a card holds one face down; the held
ranks are the points.

`src/` is the verified library (Verus):

- `proto` – the messages of server and clients as plain values;
- `error` – why the server refuses a request, and its status code;
- `game`, `desk` – cards, the hand of a player and the desk of the server,
  with the rule of which cards may be laid;
- `room` – a room of the server from the first player to the end of a game:
  joining, getting ready, the shuffled deal, the plays, leaving, and the
  watch dogs' decisions;
- `rule` – the hand and the desk as the rules see them;
- `client` – what a client keeps: its picture of the desk and the players,
  the screens it moves between, the keys and the glyphs of cards, and in
  `client::model` the client as a state machine: for each key, message of
  the game stream and answer of the server, the next state and the one
  action (request, stop, quit) for the caller to perform.

`app/` holds what runs around the library: the rooms of the server with their
channels and timers (tokio), the status codes of the RPC layer (tonic),
logging, and a command that plays one game on this machine.
