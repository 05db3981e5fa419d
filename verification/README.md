# creator_platform

A verified library for a creator platform: channels with subscribers,
registered content with copyright disputes and royalty payments, viewer
statistics, and scheduled jobs.

- `src/types.rs`: addresses, text, records (`Channel`, `Content`, `Job`) and
  their mathematical views, status enums and errors.
- `src/model.rs`: `PlatformState`, the platform as a mathematical value; its
  invariant; one transition function per operation.
- `src/platform.rs`: `CreatorPlatformContract`, the executable platform.
  Every operation is proved to act on the model exactly as the transition of
  the same name says, and to keep the invariant.
- `src/snapshot.rs`: a plain layout of the state for storage, and the check
  that a stored layout is a state the platform can be in.
- `src/history.rs`: sequences of calls (`Call`, `run`) and what each call
  keeps of the state.
- `src/laws.rs`: properties that span operations (an unsubscribe undoes a
  subscribe, an upheld dispute undoes the dispute, finished jobs and revoked
  content are final, every reachable state satisfies the invariant, channel
  views count the views recorded, ...).
- `app/`: the Soroban contract around the library: authorization, ledger
  storage, events, token transfers, and conversions of ledger values.
