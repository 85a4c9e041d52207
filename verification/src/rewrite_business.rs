use vstd::prelude::*;

use crate::text::{append_str, push_signed_decimal, signed_decimal};

verus! {

/// Rewrite-rule management: every change to the store is followed by a reload of the
/// rewrite engine, so the data plane and the store never diverge.
pub struct RewriteBusiness<D, E> {
    db: D,
    engine: E,
}

impl<D, E> RewriteBusiness<D, E> {
    pub closed spec fn db_spec(&self) -> D {
        self.db
    }

    pub closed spec fn engine_spec(&self) -> E {
        self.engine
    }

    pub fn new(db: D, engine: E) -> (b: Self)
        ensures
            b.db_spec() == db,
            b.engine_spec() == engine,
    {
        RewriteBusiness { db, engine }
    }

    pub fn db(&self) -> (d: &D)
        ensures
            *d == self.db_spec(),
    {
        &self.db
    }

    pub fn engine(&self) -> (e: &E)
        ensures
            *e == self.engine_spec(),
    {
        &self.engine
    }
}

/// Why a rewrite-rule operation failed.
#[derive(Debug)]
pub enum RewriteError {
    /// No rule has the id.
    NotFound(String),
    /// The engine could not reload the rules.
    Internal(String),
}

/// The message for a rule that does not exist.
pub open spec fn not_found_text(id: i64) -> Seq<char> {
    "Rewrite rule with id "@ + signed_decimal(id as int) + " not found"@
}

fn not_found(id: i64) -> (e: RewriteError)
    ensures
        e matches RewriteError::NotFound(m) && m@ == not_found_text(id),
{
    let mut m = "Rewrite rule with id ".to_owned();
    push_signed_decimal(&mut m, id);
    append_str(&mut m, " not found");
    RewriteError::NotFound(m)
}

/// The outcome of updating rule `id` in the store: the updated rule, which is then
/// reloaded (`after_reload`), or "not found" when the store had no such rule, with no
/// reload.
pub fn update_outcome<R>(id: i64, updated: Option<R>) -> (r: Result<R, RewriteError>)
    ensures
        updated matches Some(v) ==> r matches Ok(w) && w == v,
        updated is None ==> (r matches Err(RewriteError::NotFound(m)) && m@ == not_found_text(id)),
{
    match updated {
        Some(v) => Ok(v),
        None => Err(not_found(id)),
    }
}

/// The outcome of deleting rule `id`: "not found" when the store deleted nothing.
pub fn delete_outcome(id: i64, deleted: bool) -> (r: Result<(), RewriteError>)
    ensures
        deleted ==> r is Ok,
        !deleted ==> (r matches Err(RewriteError::NotFound(m)) && m@ == not_found_text(id)),
{
    if deleted {
        Ok(())
    } else {
        Err(not_found(id))
    }
}

/// The outcome of reloading the engine; a failure is reported, never swallowed.
pub fn reload_outcome(result: Result<(), String>) -> (r: Result<(), RewriteError>)
    ensures
        result is Ok ==> r is Ok,
        result matches Err(e) ==> (r matches Err(RewriteError::Internal(m)) && m@
            == "Failed to reload rewrite rules: "@ + e@),
{
    match result {
        Ok(()) => Ok(()),
        Err(e) => {
            let mut m = "Failed to reload rewrite rules: ".to_owned();
            append_str(&mut m, e.as_str());
            Err(RewriteError::Internal(m))
        },
    }
}

/// The result of a rule change once the store took it: the engine is reloaded next, and
/// the stored value is reported only when that reload succeeded.
pub fn after_reload<R>(stored: R, reload: Result<(), String>) -> (r: Result<R, RewriteError>)
    ensures
        reload is Ok ==> (r matches Ok(v) && v == stored),
        reload matches Err(e) ==> (r matches Err(RewriteError::Internal(m)) && m@
            == "Failed to reload rewrite rules: "@ + e@),
{
    match reload_outcome(reload) {
        Ok(()) => Ok(stored),
        Err(e) => Err(e),
    }
}

impl RewriteError {
    pub fn message(&self) -> (m: String)
        ensures
            self matches RewriteError::NotFound(s) ==> m@ == s@,
            self matches RewriteError::Internal(s) ==> m@ == s@,
    {
        match self {
            RewriteError::NotFound(s) => s.clone(),
            RewriteError::Internal(s) => s.clone(),
        }
    }
}

} // verus!
