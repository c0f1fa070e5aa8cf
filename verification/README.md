# baleine

Deploys, destroys, saves and lists Docker containers on the nodes of an
R2Lab-style testbed.

- `src/` is the verified library: it computes the shell lines and `docker`
  arguments to run, the order in which nodes are served, the node lists read
  from the testbed tools and from `$NODES`, the split of the trailing
  `--command`/`--options` words, and the lines listed from the registry.
- `app/` is the command-line program: argument parsing, configuration,
  processes, SSH sessions and HTTP requests.
