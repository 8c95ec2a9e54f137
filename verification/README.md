# k8s_scale_app_rs

A command-line tool that either scales a Kubernetes Deployment to a fixed
replica count (through the `deployments/scale` subresource) or triggers a
rolling restart of it (by stamping `kubectl.kubernetes.io/restartedAt` on the
pod template), with an optional server-side dry run and an optional bundle of
extra CA certificates that is merged into the cluster's trust store.

Layout:

- `src/` is the verified library.
  - `patch.rs`: the merge-patch bodies (JSON text) and the patch options.
  - `pem_bundle.rs`: the certificates of a PEM bundle and their merge into
    the trust store.
  - `clock.rs`: the restart time: a system-clock reading rendered as RFC 3339
    UTC text, or nothing where the clock cannot be read.
  - `run.rs`: one run of the tool as a step function from event to action,
    with the laws that hold of every run.
  - `message.rs`: the text shown for each way a run can fail.
- `app/` is the program: argument parsing, logging, reading the bundle file,
  and the calls to the Kubernetes API that the run asks for.
- `tests/` runs the library on concrete inputs.
