//! The routing table from message id to handler.
use vstd::prelude::*;
use std::collections::HashMap;
use crate::error::AeroXError;
use crate::text::{decimal, push_decimal};

verus! {

broadcast use {vstd::std_specs::hash::group_hash_axioms, vstd::string::group_string_axioms};

/// Maps message ids to handlers. An id is registered at most once.
pub struct Router<H> {
    routes: HashMap<u16, H>,
}

/// The table after registering `handler` for `id` on `routes`: unchanged
/// when `id` is taken.
pub open spec fn registered<H>(routes: Map<u16, H>, id: u16, handler: H) -> Map<u16, H> {
    if routes.contains_key(id) {
        routes
    } else {
        routes.insert(id, handler)
    }
}

/// The message of the error for registering a taken id.
pub open spec fn route_exists_text(id: u16) -> Seq<char> {
    "路由已存在: "@ + decimal(id as nat)
}

/// The message of the error for dispatching an unknown id.
pub open spec fn route_missing_text(id: u16) -> Seq<char> {
    "未找到路由: "@ + decimal(id as nat)
}

impl<H> View for Router<H> {
    type V = Map<u16, H>;

    closed spec fn view(&self) -> Map<u16, H> {
        self.routes@
    }
}

impl<H> Router<H> {
    /// An empty table.
    pub fn new() -> (r: Router<H>)
        ensures
            r@ == Map::<u16, H>::empty(),
    {
        Router { routes: HashMap::new() }
    }

    /// Registers `handler` for `message_id`. Fails when the id is taken,
    /// leaving the first handler in force.
    pub fn add_route(&mut self, message_id: u16, handler: H) -> (r: Result<(), AeroXError>)
        ensures
            final(self)@ == registered(old(self)@, message_id, handler),
            r is Ok <==> !old(self)@.contains_key(message_id),
            r is Err ==> (r->Err_0 matches AeroXError::Router(m) && m@ == route_exists_text(
                message_id,
            )),
    {
        if self.routes.contains_key(&message_id) {
            let mut m = "路由已存在: ".to_string();
            push_decimal(&mut m, message_id as u64);
            return Err(AeroXError::Router(m));
        }
        self.routes.insert(message_id, handler);
        Ok(())
    }

    /// The handler for `message_id`, if one is registered.
    pub fn get_route(&self, message_id: u16) -> (r: Option<&H>)
        ensures
            r is Some <==> self@.contains_key(message_id),
            r is Some ==> *r->Some_0 == self@[message_id],
    {
        self.routes.get(&message_id)
    }

    /// The handler that a request with `message_id` goes to, or the
    /// route-miss error.
    pub fn route_for(&self, message_id: u16) -> (r: Result<&H, AeroXError>)
        ensures
            r is Ok <==> self@.contains_key(message_id),
            r is Ok ==> *r->Ok_0 == self@[message_id],
            r is Err ==> (r->Err_0 matches AeroXError::Router(m) && m@ == route_missing_text(
                message_id,
            )),
    {
        match self.routes.get(&message_id) {
            Some(h) => Ok(h),
            None => {
                let mut m = "未找到路由: ".to_string();
                push_decimal(&mut m, message_id as u64);
                Err(AeroXError::Router(m))
            },
        }
    }

    /// Number of registered ids.
    pub fn route_count(&self) -> (r: usize)
        ensures
            r == self@.len(),
    {
        self.routes.len()
    }

    /// Whether `message_id` has a handler.
    pub fn has_route(&self, message_id: u16) -> (r: bool)
        ensures
            r == self@.contains_key(message_id),
    {
        self.routes.contains_key(&message_id)
    }
}

/// Registering twice: after `h1` is registered for `id`, registering `h2`
/// for the same id fails and `h1` stays in force.
pub proof fn lemma_register_twice<H>(routes: Map<u16, H>, id: u16, h1: H, h2: H)
    ensures
        registered(routes, id, h1).contains_key(id),
        registered(registered(routes, id, h1), id, h2) == registered(routes, id, h1),
        !routes.contains_key(id) ==> registered(registered(routes, id, h1), id, h2)[id] == h1,
{
}

impl<H> Default for Router<H> {
    fn default() -> (r: Router<H>)
        ensures
            r@ == Map::<u16, H>::empty(),
    {
        Router::new()
    }
}

} // verus!
