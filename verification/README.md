# eccfs_epm

The decision logic behind an encrypted file system mount in a library OS, and
of the enclave pool manager (`epm`) that runs beside it, as a verified Verus
library.

The library performs no input or output. Each operation is a function on plain
values: it says which call to make next, or what a reply comes to. The programs
under `app/` make the calls.

## The pool manager

- `bytes`, `hex`: integers in either byte order, and hexadecimal digits.
- `enclave`: enclave descriptions and their wire format, which is the machine's
  memory image, with proofs that reading and writing undo each other.
- `pool`: the pool of idle enclaves and the paths that descriptors are handed
  over by.
- `server`: the manager's side of its conversations as a state machine. What a
  client saves last is handed out first, byte for byte as it came in.

## The file system

- `key`: key entries given as hexadecimal text.
- `error`, `types`: the engine's vocabulary and the virtual file system's.
- `storage`: paths and files that the engine is served from.
- `queue`: series of engine calls that end with the first failure.
- `fs`, `inode`: the mount, and what each inode operation asks of the engine.

## Programs

- `app/main.rs`: the pool manager daemon.
- `app/ecc.rs`: the file system as a module of the library OS.
