# ockam_logic

Verified pieces of an Ockam node's routing and Kafka portal logic.

- `src/route.rs`, `src/message.rs`: addresses, routes and local messages.
- `src/rendezvous.rs`: the UDP rendezvous worker (route parsing, answers).
- `src/hole_punching.rs`: handing a negotiation request to its responder.
- `src/kafka/`: Kafka frame fields, the `kafka_protocol` decoders it relies
  on, the metadata interceptor, the portal listener's first-message routing,
  and the `kafka-outlet` command.
- `src/lease.rs`: the `lease create` command and its expiry text.
- `src/decimal.rs`: decimal text of integers.
- `app/`: `clap` command types and the interceptor shared between workers.
