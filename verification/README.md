# mqtt_server

The core of an MQTT v3.1.1 broker, and of the small HTTP server of its
monitoring page, written in Verus. Verus proves the library's functions
against their contracts; the few calls into std and `rand` (clock,
random packet identifiers, UTF-8 decoding) stand behind small wrappers
in `src/outside.rs` and `src/text.rs` whose contracts are taken on
trust, and the stream and authentication traits in `src/traits.rs` state
what their implementations must do.

## Layout

- `src/packets/`: decoding and encoding of the packets that both ends
  use: remaining lengths, UTF-8 fields, PUBLISH, PUBACK, the start of a
  CONNECT. Reading back what was written gives the same packet
  (`lemma_length_roundtrip`, `lemma_field_roundtrip`,
  `lemma_publish_roundtrip`, `lemma_puback_roundtrip`).
- `src/server_packets/`, `src/client_packets/`, `src/subscribe.rs`: the
  other packets the broker reads or sends.
- `src/client.rs`: the session of one client: its connection, its last
  CONNECT, its unacknowledged QoS 1 messages.
- `src/clients_manager/`: all the sessions: credentials, generic
  identifiers, take-over, disconnection, shutdown; the accounts files.
  A login made from an accounts file answers as the whole file does
  (`lemma_login_answers_as_file`), and every connection that a
  disconnection, a take-over or a shutdown closes is recorded, closed,
  in the manager's ghost log of closed connections.
- `src/server/`: the broker's errors and its decisions: what a packet
  read from a client is, what the loop that serves a client does next,
  when to dump.
- `src/http/`: requests and responses of the monitoring page, and the
  configuration of the MQTT client that feeds it.
- `src/config.rs`, `src/key_value.rs`: the broker's configuration file.
- `tests/`: tests on concrete values.
- `app/`: the programs: the broker's accept loop and client threads, and
  the page server, which read, write, spawn and sleep, and ask the
  library for every decision.

Run `app broker [config]` for the broker, `app http <config>` for the
page server.
