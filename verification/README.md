# docker-native-manager

A desktop manager for Docker: containers, images, volumes, networks, compose
stacks, terminals, logs and live resource figures.

`src/` is the verified core. It decides what to ask the Docker daemon and the
`docker` command line for, and how to present what they answer. Every public
function states its result in its contract, and the properties that span
several calls are proved as lemmas:

- `stacks`: containers grouped into compose stacks by their project label
  (count, status, first and last creation time).
- `create`: the creation request built from the user's form (port bindings,
  name, environment, volumes).
- `monitor`: the state machine that follows the daemon's events and reports
  whether it is reachable.
- `sessions`: the open terminal sessions, keyed by container.
- `stats`: memory figures and host disk and network rates.
- `containers`, `images`, `resources`: the rows shown in the lists.
- `compose`, `service`, `actions`: command lines, service control and the
  parameters of individual requests.
- `text`: decimal numbers, splitting, trimming and other character-level
  helpers with their mathematical meaning.

`app/` is the desktop shell (Tauri): it talks to the daemon through bollard,
runs commands, reads files and the host's counters, and leaves every decision
to the library. CPU percentages and sizes in megabytes are floating point and
are computed there.
