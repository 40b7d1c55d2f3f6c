//! Sending the message that the user has written.

use crate::laws::sending_keeps_counters;
use crate::model::{message_view, App, MessageView, State};
use crate::wire::{Params, ParamsView, Request, RequestView};
use vstd::prelude::*;

verus! {

impl State {
    /// The contact at `i` is the first with the id.
    pub open spec fn is_first_with_id(self, id: Seq<char>, i: int) -> bool {
        &&& 0 <= i < self.contacts.len()
        &&& self.contacts[i].id == id
        &&& forall|j: int| 0 <= j < i ==> (#[trigger] self.contacts[j]).id != id
    }

    /// The id is that of a group: the first contact with it is one.
    pub open spec fn is_group(self, id: Seq<char>) -> bool {
        exists|i: int| #[trigger] self.is_first_with_id(id, i) && self.contacts[i].is_group
    }

    /// The call that sends what was written to the open chat; there is none
    /// where no chat is open.
    pub open spec fn send_request(self, id: int) -> Option<RequestView> {
        match self.open_id {
            Some(chat) => Some(
                RequestView {
                    id,
                    method: "send"@,
                    params: if self.is_group(chat) {
                        ParamsView::Group { group_id: chat, message: self.input }
                    } else {
                        ParamsView::Direct { recipient: chat, message: self.input }
                    },
                },
            ),
            None => None,
        }
    }

    /// What was written to the open chat is logged as the user's own message,
    /// and the input is empty again.
    pub open spec fn after_sending(self) -> State {
        match self.open_id {
            Some(chat) => State {
                input: Seq::empty(),
                ..self.with_message(MessageView { chat, from: "me"@, text: self.input })
            },
            None => self,
        }
    }
}

impl App {
    /// Whether the id is that of a group.
    pub fn is_group(&self, id: &String) -> (group: bool)
        ensures
            group == self@.is_group(id@),
    {
        let mut i: usize = 0;
        while i < self.contacts.len()
            invariant
                i <= self.contacts.len(),
                forall|j: int| 0 <= j < i ==> (#[trigger] self@.contacts[j]).id != id@,
            decreases self.contacts.len() - i,
        {
            assert(self@.contacts[i as int] == self.contacts@[i as int]@);
            if self.contacts[i].id == *id {
                assert(self@.is_first_with_id(id@, i as int));
                assert forall|k: int| #[trigger] self@.is_first_with_id(id@, k) implies k == i by {
                    if i < k {
                        assert(self@.contacts[i as int].id != id@);
                    }
                }
                return self.contacts[i].is_group;
            }
            i = i + 1;
        }
        false
    }
}

/// Sends what was written to the open chat: the call goes out under `next_id`,
/// and the message is logged. Where no chat is open, nothing happens. The
/// counters stay in agreement with the log.
pub fn send_message(app: &mut App, next_id: u64) -> (call: Option<Request>)
    requires
        old(app).open_id is Some ==> old(app).msg_seq < usize::MAX,
    ensures
        final(app)@ == old(app)@.after_sending(),
        match old(app)@.send_request(next_id as int) {
            Some(request) => call is Some && call->0@ == request,
            None => call is None,
        },
        call is Some <==> old(app).open_id is Some,
        call matches Some(request) ==> {
            &&& request.method@ == "send"@
            &&& request.id == next_id
            &&& match request.params {
                Params::Group { group_id, message } => group_id@ == old(app).open_id->0@ && message@
                    == old(app).input@,
                Params::Direct { recipient, message } => recipient@ == old(app).open_id->0@
                    && message@ == old(app).input@,
                Params::Empty => false,
            }
            &&& final(app).messages@.len() == old(app).messages@.len() + 1
            &&& final(app).messages@.last().0@ == old(app).open_id->0@
            &&& final(app).messages@.last().1.from@ == "me"@
            &&& final(app).messages@.last().1.text@ == old(app).input@
            &&& final(app).input@.len() == 0
        },
        old(app)@.counters_agree() ==> final(app)@.counters_agree(),
{
    proof {
        if app@.counters_agree() {
            sending_keeps_counters(app@);
        }
    }
    let chat = match &app.open_id {
        Some(id) => id.clone(),
        None => {
            return None;
        },
    };
    let message = app.input.clone();
    let params = if app.is_group(&chat) {
        Params::Group { group_id: chat.clone(), message }
    } else {
        Params::Direct { recipient: chat.clone(), message }
    };
    let text = app.input.clone();
    app.record(chat, "me".to_string(), text);
    app.input = String::new();
    assert(app@.messages.last() == message_view(app.messages@.last()));
    Some(Request { id: next_id, method: "send".to_string(), params })
}

} // verus!
