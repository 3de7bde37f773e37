//! The protocol controller: which response answers which request.

use crate::commands::{command_spec, AddEntryCommand, AddRequest, AddRequestView};
use crate::db::SchemaView;
use crate::entity::entry::{EntryId, EntryView};
use crate::errors::{result_of_error, LdapError, LdapErrorView, LdapResult, LdapResultView, ResultCode};
use crate::octets::{bytes_clone, bytes_from_str, bytes_view, empty_bytes};
use bytes::Bytes;
use crate::service::entry::{add_spec, AddOutcome, EntryService};
use std::marker::PhantomData;
use vstd::prelude::*;
use vstd::string::*;
use vstd::utf8::encode_utf8;

verus! {

/// A bind request, as far as the directory reads it: the name to bind as.
#[derive(Debug)]
pub struct BindRequest {
    pub name: Bytes,
}

/// The operation of a message, as far as the directory reads or writes it.
#[derive(Debug)]
pub enum ProtocolOp {
    BindRequest(BindRequest),
    BindResponse(LdapResult),
    UnbindRequest,
    SearchRequest,
    SearchResDone(LdapResult),
    AddRequest(AddRequest),
    AddResponse(LdapResult),
    /// Any operation that the directory does not serve.
    Unsupported,
}

/// A [`ProtocolOp`] as plain values.
pub enum ProtocolOpView {
    BindRequest(Seq<u8>),
    BindResponse(LdapResultView),
    UnbindRequest,
    SearchRequest,
    SearchResDone(LdapResultView),
    AddRequest(AddRequestView),
    AddResponse(LdapResultView),
    Unsupported,
}

impl View for ProtocolOp {
    type V = ProtocolOpView;

    open spec fn view(&self) -> ProtocolOpView {
        match self {
            ProtocolOp::BindRequest(req) => ProtocolOpView::BindRequest(bytes_view(req.name)),
            ProtocolOp::BindResponse(res) => ProtocolOpView::BindResponse(res@),
            ProtocolOp::UnbindRequest => ProtocolOpView::UnbindRequest,
            ProtocolOp::SearchRequest => ProtocolOpView::SearchRequest,
            ProtocolOp::SearchResDone(res) => ProtocolOpView::SearchResDone(res@),
            ProtocolOp::AddRequest(req) => ProtocolOpView::AddRequest(req@),
            ProtocolOp::AddResponse(res) => ProtocolOpView::AddResponse(res@),
            ProtocolOp::Unsupported => ProtocolOpView::Unsupported,
        }
    }
}

/// A message: an operation under the number that pairs request and response.
#[derive(Debug)]
pub struct LdapMessage {
    pub message_id: u32,
    pub protocol_op: ProtocolOp,
}

/// What the connection does after a request.
#[derive(Debug)]
pub enum Action {
    /// Send the message and go on.
    Reply(LdapMessage),
    /// Send the bare result and go on.
    ReplyResult(LdapResult),
    /// Send nothing and close the connection.
    Close,
}

/// An [`Action`] as plain values.
pub enum ActionView {
    Reply { message_id: u32, protocol_op: ProtocolOpView },
    ReplyResult(LdapResultView),
    Close,
}

impl View for Action {
    type V = ActionView;

    open spec fn view(&self) -> ActionView {
        match self {
            Action::Reply(msg) => ActionView::Reply {
                message_id: msg.message_id,
                protocol_op: msg.protocol_op@,
            },
            Action::ReplyResult(res) => ActionView::ReplyResult(res@),
            Action::Close => ActionView::Close,
        }
    }
}

/// The response to a bind request: success, with the name echoed.
pub open spec fn bind_response(name: Seq<u8>) -> ProtocolOpView {
    ProtocolOpView::BindResponse(
        LdapResultView {
            result_code: ResultCode::Success,
            matched_dn: name,
            diagnostic_message: encode_utf8("not checking passwords"@),
        },
    )
}

/// The response to a search request: done, with success and no entries.
pub open spec fn search_response() -> ProtocolOpView {
    ProtocolOpView::SearchResDone(
        LdapResultView {
            result_code: ResultCode::Success,
            matched_dn: Seq::empty(),
            diagnostic_message: Seq::empty(),
        },
    )
}

/// The result that answers a request which the directory does not serve.
pub open spec fn unsupported_result() -> LdapResultView {
    LdapResultView {
        result_code: ResultCode::UnwillingToPerform,
        matched_dn: Seq::empty(),
        diagnostic_message: encode_utf8("Request type not implemented"@),
    }
}

/// The response to an add request whose transaction ended in `result`, or
/// the error itself where no result can report it.
pub open spec fn add_response<V>(entry: Seq<u8>, result: Result<EntryView<V>, LdapErrorView>) -> Result<
    ProtocolOpView,
    LdapErrorView,
> {
    match result {
        Ok(_) => Ok(
            ProtocolOpView::AddResponse(
                LdapResultView {
                    result_code: ResultCode::Success,
                    matched_dn: entry,
                    diagnostic_message: encode_utf8("Created new entry"@),
                },
            ),
        ),
        Err(e) => match result_of_error(e) {
            Some(res) => Ok(ProtocolOpView::AddResponse(res)),
            None => Err(e),
        },
    }
}

/// What serving an add request comes to: the response or the error, and
/// the repository afterwards.
pub struct AddHandled<V> {
    pub response: Result<ProtocolOpView, LdapErrorView>,
    pub repo: Seq<EntryView<V>>,
}

/// Serving the add request `req` on the repository `repo` under the schema
/// `s`, where a new entry gets the identifier `fresh`.
pub open spec fn handle_add_spec<ID: EntryId>(
    s: SchemaView,
    repo: Seq<EntryView<ID::V>>,
    req: AddRequestView,
    fresh: ID::V,
) -> AddHandled<ID::V> {
    match command_spec(req) {
        Err(e) => AddHandled { response: add_response::<ID::V>(req.entry, Err(e)), repo },
        Ok(c) => {
            let out = add_spec::<ID>(s, repo, c.dn, c.attributes, fresh);
            AddHandled { response: add_response(req.entry, out.result), repo: out.repo }
        },
    }
}

/// The view of a response or an error.
pub open spec fn response_view(r: Result<ProtocolOp, LdapError>) -> Result<
    ProtocolOpView,
    LdapErrorView,
> {
    match r {
        Ok(op) => Ok(op@),
        Err(e) => Err(e@),
    }
}

/// The controller of the protocol: the response to each kind of request.
pub trait LdapController<ID: EntryId> {
    /// The stored entries.
    spec fn repo(&self) -> Seq<EntryView<ID::V>>;

    /// The schema that entries are held to.
    spec fn schema(&self) -> SchemaView;

    /// Serves an add request, giving a new entry a random identifier.
    fn handle_add_request(&mut self, req: &AddRequest) -> (r: Result<ProtocolOp, LdapError>)
        requires
            crate::db::repo_wf(old(self).repo()),
            crate::db::schema_wf(old(self).schema()),
        ensures
            crate::db::repo_wf(final(self).repo()),
            final(self).schema() == old(self).schema(),
            exists|fresh: ID::V| #[trigger]
                handle_add_spec::<ID>(old(self).schema(), old(self).repo(), req@, fresh) == (AddHandled {
                    response: response_view(r),
                    repo: final(self).repo(),
                }),
    ;

    /// Answers a bind request: every bind succeeds, whatever the credentials.
    fn handle_bind_request(&self, req: &BindRequest) -> (r: ProtocolOp)
        ensures
            r@ == bind_response(bytes_view(req.name)),
    ;

    /// Answers a search request: no entry is ever returned.
    fn handle_search_request(&self) -> (r: ProtocolOp)
        ensures
            r@ == search_response(),
    ;
}

/// The controller: serves requests on an entry service.
pub struct LdapControllerImpl<ID: EntryId, E: EntryService<ID>> {
    entry_service: E,
    _entry_id_type: PhantomData<ID>,
}

impl<ID: EntryId, E: EntryService<ID>> LdapController<ID> for LdapControllerImpl<ID, E> {
    closed spec fn repo(&self) -> Seq<EntryView<ID::V>> {
        self.entry_service.repo()
    }

    closed spec fn schema(&self) -> SchemaView {
        self.entry_service.schema()
    }

    fn handle_add_request(&mut self, req: &AddRequest) -> (r: Result<ProtocolOp, LdapError>) {
        let ghost mut witness: ID::V = arbitrary();
        let r = match AddEntryCommand::try_from(req) {
            Err(err) => Self::respond_add(req, Err(err)),
            Ok(command) => {
                let added = self.entry_service.add_entry(command);
                proof {
                    witness = choose|fresh: ID::V| #[trigger]
                        add_spec::<ID>(
                            old(self).schema(),
                            old(self).repo(),
                            command.dn@,
                            command.attributes@,
                            fresh,
                        ) == (AddOutcome { result: crate::service::entry::result_view(added), repo: self.repo() });
                }
                match added {
                    Ok(_) => Self::respond_add(req, Ok(())),
                    Err(err) => Self::respond_add(req, Err(err)),
                }
            },
        };
        assert(handle_add_spec::<ID>(old(self).schema(), old(self).repo(), req@, witness) == (AddHandled {
            response: response_view(r),
            repo: self.repo(),
        }));
        r
    }

    fn handle_bind_request(&self, req: &BindRequest) -> (r: ProtocolOp) {
        ProtocolOp::BindResponse(
            LdapResult::new(
                ResultCode::Success,
                bytes_clone(&req.name),
                bytes_from_str("not checking passwords"),
            ),
        )
    }

    fn handle_search_request(&self) -> (r: ProtocolOp) {
        ProtocolOp::SearchResDone(LdapResult::new(ResultCode::Success, empty_bytes(), empty_bytes()))
    }
}

impl<ID: EntryId, E: EntryService<ID>> LdapControllerImpl<ID, E> {
    /// The repository and the schema are well formed.
    pub open spec fn wf(&self) -> bool {
        crate::db::repo_wf(self.repo()) && crate::db::schema_wf(self.schema())
    }

    pub fn new(entry_service: E) -> (r: Self)
        ensures
            r.repo() == entry_service.repo(),
            r.schema() == entry_service.schema(),
    {
        LdapControllerImpl { entry_service, _entry_id_type: PhantomData }
    }

    /// The entry service of the controller.
    pub fn service(&self) -> (r: &E)
        ensures
            r.repo() == self.repo(),
            r.schema() == self.schema(),
    {
        &self.entry_service
    }

    /// The response to an add request whose transaction ended in `outcome`.
    fn respond_add(req: &AddRequest, outcome: Result<(), LdapError>) -> (r: Result<
        ProtocolOp,
        LdapError,
    >)
        ensures
            response_view(r) == add_response::<ID::V>(
                req@.entry,
                match outcome {
                    Ok(_) => Ok(arbitrary()),
                    Err(e) => Err(e@),
                },
            ),
    {
        match outcome {
            Ok(_) => Ok(
                ProtocolOp::AddResponse(
                    LdapResult::new(
                        ResultCode::Success,
                        bytes_clone(&req.entry),
                        bytes_from_str("Created new entry"),
                    ),
                ),
            ),
            Err(err) => match LdapResult::try_from(err) {
                Ok(res) => Ok(ProtocolOp::AddResponse(res)),
                Err(e) => Err(e),
            },
        }
    }

    /// Serves one message: the response carries the number of the request.
    /// An unbind request closes the connection; a request that the
    /// directory does not serve gets a bare result.
    pub fn handle_message(&mut self, msg: &LdapMessage) -> (r: Result<Action, LdapError>)
        requires
            old(self).wf(),
        ensures
            final(self).wf(),
            final(self).schema() == old(self).schema(),
            exists|fresh: ID::V| #[trigger]
                handle_message_spec::<ID>(
                    old(self).schema(),
                    old(self).repo(),
                    msg.message_id,
                    msg.protocol_op@,
                    fresh,
                ) == (Handled { action: action_view(r), repo: final(self).repo() }),
    {
        let ghost mut witness: ID::V = arbitrary();
        let r = match &msg.protocol_op {
            ProtocolOp::BindRequest(req) => {
                let op = self.handle_bind_request(req);
                Ok(Action::Reply(LdapMessage { message_id: msg.message_id, protocol_op: op }))
            },
            ProtocolOp::SearchRequest => {
                let op = self.handle_search_request();
                Ok(Action::Reply(LdapMessage { message_id: msg.message_id, protocol_op: op }))
            },
            ProtocolOp::UnbindRequest => Ok(Action::Close),
            ProtocolOp::AddRequest(req) => {
                let res = self.handle_add_request(req);
                proof {
                    witness = choose|fresh: ID::V| #[trigger]
                        handle_add_spec::<ID>(old(self).schema(), old(self).repo(), req@, fresh) == (AddHandled {
                            response: response_view(res),
                            repo: self.repo(),
                        });
                }
                match res {
                    Ok(op) => Ok(Action::Reply(LdapMessage { message_id: msg.message_id, protocol_op: op })),
                    Err(e) => Err(e),
                }
            },
            _ => Ok(
                Action::ReplyResult(
                    LdapResult::new(
                        ResultCode::UnwillingToPerform,
                        empty_bytes(),
                        bytes_from_str("Request type not implemented"),
                    ),
                ),
            ),
        };
        assert(handle_message_spec::<ID>(
            old(self).schema(),
            old(self).repo(),
            msg.message_id,
            msg.protocol_op@,
            witness,
        ) == (Handled { action: action_view(r), repo: self.repo() }));
        r
    }
}

/// What serving a message comes to: the action or the error, and the repository afterwards.
pub struct Handled<V> {
    pub action: Result<ActionView, LdapErrorView>,
    pub repo: Seq<EntryView<V>>,
}

/// The view of an action or an error.
pub open spec fn action_view(r: Result<Action, LdapError>) -> Result<ActionView, LdapErrorView> {
    match r {
        Ok(a) => Ok(a@),
        Err(e) => Err(e@),
    }
}

/// Serving the operation `op` of the message number `message_id`, where a
/// new entry gets the identifier `fresh`. A response carries the number of
/// its request; an unbind request closes the connection; an operation that
/// the directory does not serve gets a bare result.
pub open spec fn handle_message_spec<ID: EntryId>(
    s: SchemaView,
    repo: Seq<EntryView<ID::V>>,
    message_id: u32,
    op: ProtocolOpView,
    fresh: ID::V,
) -> Handled<ID::V> {
    match op {
        ProtocolOpView::BindRequest(name) => Handled {
            action: Ok(ActionView::Reply { message_id, protocol_op: bind_response(name) }),
            repo,
        },
        ProtocolOpView::SearchRequest => Handled {
            action: Ok(ActionView::Reply { message_id, protocol_op: search_response() }),
            repo,
        },
        ProtocolOpView::UnbindRequest => Handled { action: Ok(ActionView::Close), repo },
        ProtocolOpView::AddRequest(req) => {
            let out = handle_add_spec::<ID>(s, repo, req, fresh);
            Handled {
                action: match out.response {
                    Ok(protocol_op) => Ok(ActionView::Reply { message_id, protocol_op }),
                    Err(e) => Err(e),
                },
                repo: out.repo,
            }
        },
        _ => Handled { action: Ok(ActionView::ReplyResult(unsupported_result())), repo },
    }
}

} // verus!
