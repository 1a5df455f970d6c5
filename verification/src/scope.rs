//! The scope chain: handles to the active scopes surrounding an event,
//! innermost first, and the walker that turns the chain into a flat list.
use vstd::prelude::*;

verus! {

/// A handle to one active scope: its display name, the field text recorded
/// when it was entered (absent when nothing was recorded), and its parent.
/// A chain of these runs from the innermost scope out to the root.
pub struct ScopeRef {
    pub name: String,
    pub fields: Option<String>,
    pub parent: Option<Box<ScopeRef>>,
}

/// One walked scope, detached from the chain: its name and recorded field
/// text.
pub struct Scope {
    pub name: String,
    pub fields: Option<String>,
}

/// What the serializer reads of one scope: the name and the recorded field
/// text, as sequences.
pub open spec fn scope_view(s: Scope) -> (Seq<char>, Option<Seq<char>>) {
    (s.name@, s.fields.deep_view())
}

/// The models of a walked scope list.
pub open spec fn scopes_view(ss: Seq<Scope>) -> Seq<(Seq<char>, Option<Seq<char>>)> {
    ss.map_values(|s: Scope| scope_view(s))
}

/// The whole ancestry of a scope, innermost first: the scope itself, then
/// its parent's chain. Finite by construction, since each step moves to a
/// structurally smaller handle.
pub open spec fn chain_view(s: ScopeRef) -> Seq<(Seq<char>, Option<Seq<char>>)>
    decreases s,
{
    let head = (s.name@, s.fields.deep_view());
    match s.parent {
        Option::None => seq![head],
        Option::Some(p) => seq![head] + chain_view(*p),
    }
}

/// The chain of an optional innermost scope: empty when no scope is active.
pub open spec fn opt_chain_view(s: Option<&ScopeRef>) -> Seq<(Seq<char>, Option<Seq<char>>)> {
    match s {
        Option::None => Seq::empty(),
        Option::Some(r) => chain_view(*r),
    }
}

fn walk_into(out: &mut Vec<Scope>, r: &ScopeRef)
    ensures
        scopes_view(final(out)@) == scopes_view(old(out)@) + chain_view(*r),
    decreases *r,
{
    let name = r.name.clone();
    let fields = match &r.fields {
        Option::Some(b) => Option::Some(b.clone()),
        Option::None => Option::None,
    };
    out.push(Scope { name, fields });
    proof {
        assert(scopes_view(out@) =~= scopes_view(old(out)@)
            + seq![(r.name@, r.fields.deep_view())]);
    }
    match &r.parent {
        Option::Some(p) => {
            walk_into(out, p);
            proof {
                assert(scopes_view(out@) =~= scopes_view(old(out)@) + chain_view(*r));
            }
        },
        Option::None => {},
    }
}

/// Walk the scope chain outward from the innermost active scope, yielding
/// each scope's name and recorded field text, innermost first. With no
/// active scope the walk is empty.
pub fn walk_scope_chain(innermost: Option<&ScopeRef>) -> (v: Vec<Scope>)
    ensures
        scopes_view(v@) == opt_chain_view(innermost),
{
    let mut v: Vec<Scope> = Vec::new();
    match innermost {
        Option::Some(r) => {
            walk_into(&mut v, r);
            proof {
                assert(scopes_view(v@) =~= opt_chain_view(innermost));
            }
        },
        Option::None => {
            proof {
                assert(scopes_view(v@) =~= opt_chain_view(innermost));
            }
        },
    }
    v
}

} // verus!
