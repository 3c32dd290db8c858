# akri

The decision logic of Akri's dynamic resource allocation (DRA) components,
verified with Verus:

- the agent's DiscoveryConfiguration controller (error back-off, which
  Instances are published, which vanished ones are deleted or released),
  its CDI file naming and clean-up, and its kubelet plugin answers;
- the driver controller's allocation of resource claims (`Immediate` claims,
  and pod scheduling contexts for claims that wait for their consumer);
- the Spore controller's reconciliation plan and its registry of watched
  configurations;
- the shared resource types: InstanceFilter matching, ownership references,
  the retry rule for deleting Instances.

## Layout

- `src/` is the verified library. Each module models its data with views
  (`Seq`, `Set`, `Map` of plain values) and states what each function returns
  in its `ensures`. Public proof functions whose names start with `law_` state
  properties that hold across calls (back-off doubling, filter algebra, the
  watch registry, bounded retries, allocation within capacity).
- `tests/` runs the library on concrete values.
- `app/` is the runtime around the library: the Kubernetes resource types with
  their serde and kube derives, conversions to the library's types, and the
  controller loops that perform the library's decisions against the API
  server and the node's file system.

## Dependencies

`kstring` is not used directly: it is a dependency of the Liquid template
engine behind `liquid-json`, held at 2.0.2 because its later releases need a
newer Rust compiler than the one this crate is built with.
