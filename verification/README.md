# engcheck

Engine supervision for a desktop VPN client whose engines each publish a local
SOCKS5 proxy on 127.0.0.1, written in Verus.

`src/` is the verified library:

- `engine.rs`: the engines, their ports, and the chain of processes each one
  needs (the Global engine is always dialled through Aether).
- `text.rs`, `json.rs`, `region.rs`: decimal ports, trimming, JSON string
  escaping (proved to decode back to the value), reading a flat field out of
  a JSON reply, and normalising an exit country code.
- `paths.rs`: where executables, logs and config files live.
- `config.rs`: each process's command line and environment, and the config
  files written for the Global engine and the whole-system tunnel.
- `exit.rs`: the SOCKS5 + HTTP exchange that asks the running chain which exit
  the internet sees, as a state machine the caller drives with socket reads
  and writes.
- `supervisor.rs`: the record of what runs and the decisions taken while a
  chain is brought up, with the laws that a start or a failure hands over
  everything that ran to be stopped (last started, first stopped), that a
  failed start leaves nothing running, that the Global engine runs on the
  config written for it, and that a chain reported ready runs every step in
  plan order.

`app/` performs what the library decides: files, processes, sockets, clocks,
and the Tauri commands of the desktop app.
