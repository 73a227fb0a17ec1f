# keybox

Validation and generation of Android keybox files, verified with Verus.

`src/` is the library. Each function states what it returns over plain
sequences, maps and integers, and Verus proves that it does.

| module | what it holds |
| --- | --- |
| `text` | lines, trimming, joining, decimal numbers |
| `pem` | PEM armor and base64 |
| `x509` | certificates as plain values |
| `chain` | signatures and the links of a chain |
| `anchors` | the keys of the known roots |
| `private_key` | whether a private key belongs to a certificate |
| `clock` | the system clock and the validity of a certificate |
| `json`, `revocation` | the list of revoked certificates: where it comes from, how it is read and kept |
| `xml_model` | the elements of a keybox file |
| `report` | what is found out about one key |
| `validate` | what is found out about a whole file |
| `generate` | new keybox files |
| `pem_laws`, `laws` | what holds between these functions |

Parsing of certificates, signatures, keys, base64 and JSON is done by other
crates. The functions that call them are marked `external_body`; the comment
above each says what is taken from the crate without proof.

`app/` is ordinary Rust around the library: the XML parser, files, the network,
signals, and reports that can be serialized. It reads the public keys of the
roots (`google.pem`, `aosp_ec.pem`, `aosp_rsa.pem`, `knox.pem`) and the list of
revoked certificates (`status.json`) from one directory.
