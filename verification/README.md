# nixlock

A Wayland session locker that keeps designated kiosk outputs live while every other output is a
password lock screen. Everything that decides is a verified Verus library; the program around it
talks to the compositor, to PAM, to the kiosk socket and to the terminal.

- `src/` is the library. `locker.rs` is the state machine between the compositor's events and the
  actions to carry out, with the one gate in front of the unlock request; `socket.rs` is the kiosk
  display protocol; `auth.rs` judges what PAM answers; `render.rs`, `theme.rs` and `lockscreen.rs`
  decide what is shown; `cli.rs`, `config.rs` and `daemon.rs` are about starting up. The properties
  that span several operations are proved in `locker_laws.rs` and `socket_laws.rs`, and beside the
  functions that they are about.
- `app/` is the program, and a library root for programs that bring their own lock screen.
- `tests/` runs the library on concrete values.

## What is proved

- The compositor is asked to unlock exactly when PAM accepted a password while the lock is held. No
  key, signal, frame, failure or passing of time does it.
- A rejected password leaves the session locked, is not kept, starts a backoff of one to five
  seconds, and can always be retried afterwards. At most one attempt is in flight.
- No line that is printed depends on what was typed, but for the diagnostic line that notes an
  empty submission.
- An output is a kiosk output only if its exact name is configured. A kiosk output shows the latest
  whole frame of its size that the current client sent, or the clock, and no password field.
- Nothing a client sends over the socket reaches more than the pixels of the kiosk output. A
  truncated or superseded frame is never shown.
- The locker asks for the readiness marker of `-f` only when the lock is confirmed, and the waiting
  side takes nothing but the marker for readiness. That the parent then returns, and only then, is
  the program's part and is not proved.
- Provided that the program ticks at the delay it is given, every output is repainted as often as
  its content asks for, and a signal shows within one second.

## What is trusted

The wrappers around `zeroize`, `chrono` and a few functions of the standard library, each marked
`external_body` or `assume_specification` with a comment on what is claimed of it. That a dropped
password is wiped from memory is `zeroize`'s promise, and is part of no contract here.
