use vstd::prelude::*;

verus! {

/// The JSON value type of serde_json, carried through opaquely in transaction
/// metadata.
#[verifier::external_type_specification]
#[verifier::external_body]
pub struct ExValue(serde_json::Value);

/// Version tag of every request.
pub const JSONRPC_VERSION: &'static str = "2.0";

/// A JSON-RPC request envelope.
pub struct Rpcrequest<T> {
    pub jsonrpc: &'static str,
    pub id: u64,
    pub method: &'static str,
    pub params: T,
}

impl<T> Rpcrequest<T> {
    /// A request for `method` under the given id.
    pub fn new(id: u64, method: &'static str, params: T) -> (r: Rpcrequest<T>)
        ensures
            r.jsonrpc@ == "2.0"@,
            r.id == id,
            r.method@ == method@,
            r.params == params,
    {
        proof {
            reveal_strlit("2.0");
        }
        Rpcrequest { jsonrpc: JSONRPC_VERSION, id, method, params }
    }
}

/// A JSON-RPC response envelope.
pub struct Rpcresponse<T> {
    pub jsonrpc: String,
    pub result: T,
    pub id: u64,
}

/// An error object of a JSON-RPC response.
pub struct RpcError {
    pub code: u64,
    pub message: String,
}

/// Result of a slot query.
pub struct Slotresponse(pub u64);

/// A finalized block as the historical source reports it.
pub struct Rpcblock {
    pub block_height: Option<u64>,
    pub parent_slot: u64,
    pub transactions: Option<Vec<RpcTransaction>>,
}

pub struct RpcTransaction {
    pub meta: Option<RpcTransactionmeta>,
    pub transaction: RpcTransactionData,
}

pub struct RpcTransactionmeta {
    pub err: Option<serde_json::Value>,
}

pub struct RpcTransactionData {
    pub signatures: Vec<String>,
}

} // verus!
