//! The JavaScript that runs a compiled module: a Node host and a browser
//! app, each instantiating the module with `env.print` (which decodes a
//! UTF-8 `(ptr, len)` string from the module's memory) and printing what
//! `main` returns. The Node host also merges the default export of an
//! optional host module (its second argument) into `env`.
use vstd::prelude::*;

verus! {

/// The Node host: `node host.mjs <file.wasm> [host.mjs]`.
pub fn node_host_mjs() -> (r: &'static str)
    ensures
        r@ == NODE_HOST@,
{
    NODE_HOST
}

/// The browser app, which fetches `./out.wasm`.
pub fn browser_app_mjs() -> (r: &'static str)
    ensures
        r@ == BROWSER_APP@,
{
    BROWSER_APP
}

pub const NODE_HOST: &'static str = r#"import fs from 'node:fs/promises';
import { pathToFileURL } from 'node:url';

const wasmPath = process.argv[2];
if (!wasmPath) {
  console.error('usage: node host.mjs <file.wasm> [host.mjs]');
  process.exit(2);
}
const wasmBytes = await fs.readFile(wasmPath);

let bytes;
let decoder;
function print(ptr, len) {
  const s = decoder.decode(bytes.subarray(ptr, ptr + len));
  process.stdout.write(s + "\n");
}

const hostPath = process.argv[3];
const extra = hostPath ? ((await import(pathToFileURL(hostPath).href)).default ?? {}) : {};

const { instance } = await WebAssembly.instantiate(wasmBytes, { env: { ...extra, print } });
const memory = instance.exports.memory;
bytes = new Uint8Array(memory.buffer);
decoder = new TextDecoder('utf-8');

const ret = instance.exports.main();
console.log(ret);
"#;

pub const BROWSER_APP: &'static str = r#"const wasmBytes = await (await fetch('./out.wasm')).arrayBuffer();

let bytes;
let decoder;
function print(ptr, len) {
  const s = decoder.decode(bytes.subarray(ptr, ptr + len));
  console.log(s);
}

const { instance } = await WebAssembly.instantiate(wasmBytes, { env: { print } });
const memory = instance.exports.memory;
bytes = new Uint8Array(memory.buffer);
decoder = new TextDecoder('utf-8');

const ret = instance.exports.main();
console.log(ret);
"#;

} // verus!
