# session_behaviour

Tests a session by playing its counterparty. A session is a future that receives messages on one
channel and sends messages on another. A behaviour holds the other ends: it sends to the session
and checks what comes back. The session passes if it returns no error and the behaviour ends well.

`src/` is a Verus library:

- `channel`: the sending and receiving handle, each with a ledger of what went through it.
- `reading`: what can be read off a message, which is what both ends of a channel agree on.
- `behaviour`: behaviours, cut into segments at the points where they wait; chains of behaviours;
  what a whole run is.
- `conversions`: what the standard library's conversions to bytes send.
- `steps`: sending, receiving, sleeping with a stopped clock, waiting for the session to
  disconnect, and steps of one's own.
- `session`: setting a session up against a behaviour, and running the behaviour.
- `outcome`: how a behaviour can fail, and the verdict on the session.
- `laws`, `step_laws`: what is proved of whole runs and of chains.
- `stream_laws`: what is proved of the messages that go through a channel.

`app/` drives behaviours on tokio: it yields, stops the clock, sleeps, awaits, and panics where a
test fails.
