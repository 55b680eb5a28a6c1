//! The labels under which the portal counts what it does.

use vstd::prelude::*;

verus! {

#[derive(Clone, Debug, Hash, PartialEq, Eq)]
pub struct RouteLabels {
    pub route: &'static str,
    pub status: u16,
}

#[derive(Clone, Debug, Hash, PartialEq, Eq)]
pub struct DavOpLabels {
    pub op: &'static str,
}

#[derive(Clone, Debug, Hash, PartialEq, Eq)]
pub struct CallbackLabels {
    pub result: &'static str,
}

/// The name under which a WebDAV operation is timed.
pub open spec fn op_name(op: crate::dav::DavOp) -> Seq<char> {
    match op {
        crate::dav::DavOp::List => "list"@,
        crate::dav::DavOp::Get => "get"@,
        crate::dav::DavOp::Put => "put"@,
        crate::dav::DavOp::Delete => "delete"@,
        crate::dav::DavOp::Mkcol => "mkcol"@,
        crate::dav::DavOp::Move => "move"@,
    }
}

impl DavOpLabels {
    /// The labels of a WebDAV operation.
    pub fn of(op: crate::dav::DavOp) -> (l: DavOpLabels)
        ensures
            l.op@ == op_name(op),
    {
        let op = match op {
            crate::dav::DavOp::List => "list",
            crate::dav::DavOp::Get => "get",
            crate::dav::DavOp::Put => "put",
            crate::dav::DavOp::Delete => "delete",
            crate::dav::DavOp::Mkcol => "mkcol",
            crate::dav::DavOp::Move => "move",
        };
        DavOpLabels { op }
    }
}

} // verus!
