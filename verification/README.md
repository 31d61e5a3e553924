# solana-ed25519

Batch verification of Ed25519 signatures on eight lanes, verified with
[Verus](https://github.com/verus-lang/verus).

A `Verifier` takes a batch of `(public key, signature, message)` requests and says of each whether
its policy accepts it:

* `Zip215`: cofactored verification with liberal point decoding;
* `Dalek`: `R` is recomputed and compared by its encoding, and keys or `R` of small order are
  rejected.

The verdict on a request does not depend on the rest of the batch. `verify_batch` states it as
`out[i] == inputs[i].valid(policy)`, where `valid` speaks of points of the curve, the encoding of
points, the group order, and the SHA-512 challenge.

## Layout

| Modules | Contents |
| --- | --- |
| `prime`, `certificate`, `fp`, `field_laws` | the prime field, with a proof that `2^255 - 19` is prime |
| `ring`, `curve_algebra`, `curve`, `order` | the group of points: completeness, associativity, the order of the base point |
| `encoding`, `bytes` | compressed points |
| `projective` | the coordinate formulas |
| `field`, `limbs`, `edwards`, `scalar` | one element, point or scalar at a time |
| `lanes`, `wide_field`, `wide` | eight of them at a time |
| `sha512`, `policy`, `signature` | challenges, policies, and what a valid signature is |
| `verification_key`, `batch`, `batch_verifier`, `cache`, `cpuid`, `error` | verification of single signatures and of batches |

`signature::lemma_signed_verifies` ties verification to signing: what a signer computes for a key
`A = [a]B` and a nonce `r` is accepted, by the strict policy unless `A` or `R` has small order.
`signature::lemma_signed_another_message` says when such a signature passes for another message.

SHA-512 comes from the `sha2` crate, and single verification splits a signature with the `ed25519`
crate; these calls are the only parts that are believed rather than proved.

`app/` detects the processor features that a `Verifier` asks for, and checks the lengths that
`verify_batch` asks for.
