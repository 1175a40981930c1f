//! What an operation hands back: messages to dispatch and attributes that
//! describe what was done.

use vstd::prelude::*;
use crate::action::{copy_msg, Msg};
use crate::text::copy_text;

verus! {

/// A key and a value that describe one aspect of what an operation did.
#[derive(Clone, Debug, PartialEq, Eq)]
pub struct Attribute {
    pub key: String,
    pub value: String,
}

/// A message for the caller to dispatch.
#[derive(Debug, PartialEq)]
pub enum Dispatch {
    /// Pay `amount` of `denom` out of the organization's funds.
    Send { to_address: String, denom: String, amount: u128 },
    /// One action of an executed proposal.
    Action(Msg),
}

/// The result of a successful operation.
#[derive(Clone, Debug, PartialEq)]
pub struct Response {
    pub messages: Vec<Dispatch>,
    pub attributes: Vec<Attribute>,
}

/// A [`Dispatch`] with its texts as sequences.
pub enum DispatchView {
    Send { to_address: Seq<char>, denom: Seq<char>, amount: u128 },
    Action(Msg),
}

/// A [`Response`] with its parts as sequences.
pub struct ResponseView {
    pub messages: Seq<DispatchView>,
    pub attributes: Seq<(Seq<char>, Seq<char>)>,
}

impl View for Attribute {
    type V = (Seq<char>, Seq<char>);

    open spec fn view(&self) -> (Seq<char>, Seq<char>) {
        (self.key@, self.value@)
    }
}

impl Clone for Dispatch {
    fn clone(&self) -> (r: Dispatch)
        ensures
            r@ == self@,
    {
        match self {
            Dispatch::Send { to_address, denom, amount } => Dispatch::Send {
                to_address: copy_text(to_address),
                denom: copy_text(denom),
                amount: *amount,
            },
            Dispatch::Action(m) => Dispatch::Action(copy_msg(m)),
        }
    }
}

impl View for Dispatch {
    type V = DispatchView;

    open spec fn view(&self) -> DispatchView {
        match self {
            Dispatch::Send { to_address, denom, amount } => DispatchView::Send {
                to_address: to_address@,
                denom: denom@,
                amount: *amount,
            },
            Dispatch::Action(m) => DispatchView::Action(*m),
        }
    }
}

impl View for Response {
    type V = ResponseView;

    open spec fn view(&self) -> ResponseView {
        ResponseView {
            messages: self.messages@.map_values(|d: Dispatch| d@),
            attributes: self.attributes@.map_values(|a: Attribute| a@),
        }
    }
}

/// The messages that hand out a batch of actions, one for each, in order.
pub open spec fn actions_of(msgs: Seq<Msg>) -> Seq<DispatchView> {
    msgs.map_values(|m: Msg| DispatchView::Action(m))
}

impl Response {
    /// A response without messages or attributes.
    pub fn new() -> (r: Response)
        ensures
            r@.messages == Seq::<DispatchView>::empty(),
            r@.attributes == Seq::<(Seq<char>, Seq<char>)>::empty(),
    {
        let r = Response { messages: Vec::new(), attributes: Vec::new() };
        assert(r@.messages =~= Seq::<DispatchView>::empty());
        assert(r@.attributes =~= Seq::<(Seq<char>, Seq<char>)>::empty());
        r
    }

    /// This response with one more attribute at the end.
    pub fn add_attribute(self, key: &str, value: String) -> (r: Response)
        ensures
            r@.messages == self@.messages,
            r@.attributes == self@.attributes.push((key@, value@)),
    {
        let mut r = self;
        let ghost before = r@;
        r.attributes.push(Attribute { key: key.to_owned(), value });
        assert(r@.attributes =~= before.attributes.push((key@, value@)));
        assert(r@.messages =~= before.messages);
        r
    }

    /// This response with one more message at the end.
    pub fn add_message(self, message: Dispatch) -> (r: Response)
        ensures
            r@.messages == self@.messages.push(message@),
            r@.attributes == self@.attributes,
    {
        let mut r = self;
        let ghost before = r@;
        r.messages.push(message);
        assert(r@.messages =~= before.messages.push(message@));
        assert(r@.attributes =~= before.attributes);
        r
    }

    /// This response with the actions of a batch added at the end, in order.
    pub fn add_actions(self, msgs: Vec<Msg>) -> (r: Response)
        ensures
            r@.messages == self@.messages + actions_of(msgs@),
            r@.attributes == self@.attributes,
    {
        let mut r = self;
        let ghost before = r@;
        let mut msgs = msgs;
        let ghost all = msgs@;
        let mut taken: Vec<Msg> = Vec::new();
        // Actions are moved out from the back, so they are collected in
        // reverse and put in order again below.
        while msgs.len() > 0
            invariant
                msgs@.len() + taken@.len() == all.len(),
                forall|i: int| 0 <= i < msgs@.len() ==> msgs@[i] == all[i],
                forall|i: int|
                    0 <= i < taken@.len() ==> taken@[i] == all[all.len() - 1 - i],
            decreases msgs@.len(),
        {
            let m = msgs.pop().unwrap();
            taken.push(m);
        }
        while taken.len() > 0
            invariant
                taken@.len() <= all.len(),
                forall|i: int|
                    0 <= i < taken@.len() ==> taken@[i] == all[all.len() - 1 - i],
                r@.attributes == before.attributes,
                r@.messages == before.messages + actions_of(
                    all.take(all.len() - taken@.len()),
                ),
            decreases taken@.len(),
        {
            let ghost done = all.len() - taken@.len();
            let ghost prior = r@.messages;
            let m = taken.pop().unwrap();
            r.messages.push(Dispatch::Action(m));
            assert(r@.messages =~= prior.push(DispatchView::Action(m)));
            assert(actions_of(all.take(done + 1)) =~= actions_of(all.take(done as int)).push(
                DispatchView::Action(m),
            ));
            assert(r@.messages =~= before.messages + actions_of(all.take(done + 1)));
            assert(r@.attributes =~= before.attributes);
        }
        assert(all.take(all.len() as int) =~= all);
        r
    }
}

} // verus!
