# fork_harness

Runs Move unit tests on a fork of a network. A test function that carries
`#[fork(network = b"..", version = ..)]` starts from the state of that network at
that version; every other test starts from genesis.

`src/` is the verified library:

- `fork_attributes`, `fork_laws`: reading the attributes, and the plan of each module
- `resolution`: which version values have to be resolved to numbers, and when
- `factory`: the store of a test, and the modules that go on top of it
- `metadata`: the run-time metadata that a module carries
- `store`: the node, the API key, the version and the cache directory of a fork
- `cache`: the files that remember what a network answered
- `report`: the text about what a test changed
- `session`: the native contexts of a test
- `text`, `assoc`, `model`: texts, a map, addresses and module ids
- `outside`: the calls into other crates, with what is taken for granted about them

`app/` connects the library to the Move compiler, the virtual machine, the network
and the file system. `tests/` runs the library on concrete values.
