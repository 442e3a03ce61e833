# keymint_provisioning

The logic of the KeyMint provisioning tool and the scheduling policies of
libprocessgroup, verified with Verus.

- `src/` is the verified library:
  - `cbor.rs`: the model of a decoded CBOR item, decoding and encoding through
    `ciborium`, and the checks that turn an item into a map, text or bytes;
  - `uds_certs.rs`: UDS certificate files (load, append, render);
  - `certs.rs`: certificate chains, read with `der` and parsed with `x509-cert`;
  - `attestation_ids.rs`, `attestation.rs`: attestation IDs and keys;
  - `sched_policy.rs`: scheduling policies and their C numbers;
  - `error.rs`: the library's errors.
- `app/` is the command-line tool: argument parsing, files, logging, the binder
  service and the libprocessgroup bindings.
- `tests/` runs the library on concrete inputs.
