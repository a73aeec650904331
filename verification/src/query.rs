use vstd::prelude::*;

verus! {

/// One OID of a raw query as configured, before aliases are resolved.
#[derive(Clone, Debug)]
pub struct RawSnmpOidItem {
    pub name: Option<String>,
    pub oid: String,
}

/// One item of a raw SNMP SET as configured.
#[derive(Clone, Debug)]
pub struct RawSnmpSetItem {
    pub name: Option<String>,
    pub oid: String,
    pub value: String,
    pub value_type: Option<String>,
}

/// Why a raw SNMP query was rejected.
#[derive(Clone, Debug, PartialEq, Eq)]
pub enum SnmpQueryError {
    InvalidIpAddress { ip: String },
    InvalidSnmpProfile { message: String },
    SnmpProfileMustBeProvided { message: String },
    UnknownAlias { pos: usize, alias: String },
    SnmpCommunityIsEmpty,
    SnmpCommunityInvalidLength { min: usize, max: usize, provide: usize },
    InvalidSnmpOid { pos: usize, oid: String },
    Other(String),
}

/// Why an adapter could not be built.
#[derive(Clone, Debug, PartialEq, Eq)]
pub enum AdapterBuildError {
    SnmpClientCreate,
    Other(String),
}

} // verus!
