# cook

A small C/C++ package manager: it resolves the dependencies of a project, locks
them, builds them, writes a CMake or make file for the project, builds it and
runs it.

```bash
cook new my_project     # create a project
cook add raylib         # add a package from the cookbook
cook                    # build; `cook build -r` for the release profile
cook run                # build and run
cook lock               # write cook.lock
cook clean              # remove target/
```

## Layout

- `src/` is the library. Every function in it states in its contract what it
  returns, and Verus proves that it does.
- `app/` is the command line around it: files, processes, the network, the
  terminal, and the formats that serde reads and writes.
- `tests/` runs the library on concrete values.

The library does not touch the world. Whatever needs a look at it (a manifest, a
checkout, the outcome of a command) is a step machine: a function is told what is
known so far and says what to do next. The command line does that, adds the
reply, and asks again.

## Where to look

| Module | What it decides |
| --- | --- |
| `config`, `packages` | what a manifest says; what a resolution gives out |
| `resolution`, `resolver` | the walk through the dependency graph |
| `resolution_laws`, `resolution_links` | what holds of every such walk |
| `abi` | which packages fit together |
| `checkout`, `findings` | repositories, and what has been found out |
| `registry`, `versions` | recipes of the cookbook and which version is taken |
| `additions`, `archive` | adding a dependency; unpacking an archive |
| `lockfile`, `sorting` | the lockfile and its order |
| `backends`, `generator` | CMake and make files, commands and results |
| `externals`, `pkg_config` | dependencies with a build system of their own |
| `cache`, `digest`, `scanner` | fingerprints, digests and source files |
| `project`, `builder`, `programs` | the whole of a build, step by step |
| `reporter` | what the user is told |
| `text`, `paths`, `ordered_map`, `failure` | texts, paths, maps and errors |

Paths are texts. A flag says whether they follow the rules of Windows, so that the
same contracts hold on every system. What the library takes from the
`sha2`, `semver`, `zip` and `colored` crates stands in small functions marked
`external_body`, whose comments say what is taken on trust.
