//! The command dispatcher: routes each debugger command to its handler and makes
//! sure that every command is answered exactly once, on its own reply channel.
//!
//! A command is handled in one step, except script evaluation: the dispatcher
//! then asks its caller to run the script in the page and waits for the outcome,
//! which `handle_evaluate_js` turns into the reply.
use vstd::prelude::*;
use crate::document::{
    children_view, contains_id, document_element_reply, index_of, info_of, layout_at_reply,
    Document, NodeInfo, NodeInfoView,
};
use crate::evaluation::{evaluation_result, evaluation_spec};
use crate::pages::PageDirectory;
use crate::types::{DevtoolsError, EvaluationResult, PipelineId, ScriptValue};

verus! {

/// The operation that a command asks for.
#[derive(Debug)]
pub enum Payload {
    /// Run the source text as a script in the page.
    EvaluateJS(String),
    GetRootNode,
    GetDocumentElement,
    /// The direct children of the node with this identifier.
    GetChildren(u64),
    /// The bounding box of the element with this identifier.
    GetLayout(u64),
}

/// A debugger command: the page it addresses, what it asks, and the channel on
/// which its reply goes.
#[derive(Debug)]
pub struct Command {
    pub pipeline: PipelineId,
    pub payload: Payload,
    pub reply_to: u64,
}

/// The answer to one command.
#[derive(Debug)]
pub enum Reply {
    Node(Result<NodeInfo, DevtoolsError>),
    Children(Result<Vec<NodeInfo>, DevtoolsError>),
    Layout(Result<(u32, u32), DevtoolsError>),
    Evaluation(EvaluationResult),
}

/// A reply addressed to the channel of the command it answers.
#[derive(Debug)]
pub struct Envelope {
    pub reply_to: u64,
    pub reply: Reply,
}

/// What the caller does after a command was received.
#[derive(Debug)]
pub enum Action {
    /// Deliver this reply; the command is done.
    Send(Envelope),
    /// Evaluate `source` in the page of `pipeline` and hand the outcome to
    /// `handle_evaluate_js`.
    Evaluate { pipeline: PipelineId, source: String },
}

/// The mathematical content of a `Reply`.
pub enum ReplyView {
    Node(Result<NodeInfoView, DevtoolsError>),
    Children(Result<Seq<NodeInfoView>, DevtoolsError>),
    Layout(Result<(u32, u32), DevtoolsError>),
    Evaluation(EvaluationResult),
}

pub open spec fn node_result_view(r: Result<NodeInfo, DevtoolsError>) -> Result<NodeInfoView, DevtoolsError> {
    match r {
        Ok(n) => Ok(n@),
        Err(e) => Err(e),
    }
}

pub open spec fn children_result_view(r: Result<Vec<NodeInfo>, DevtoolsError>) -> Result<Seq<NodeInfoView>, DevtoolsError> {
    match r {
        Ok(v) => Ok(v@.map_values(|n: NodeInfo| n@)),
        Err(e) => Err(e),
    }
}

pub open spec fn reply_view(r: Reply) -> ReplyView {
    match r {
        Reply::Node(n) => ReplyView::Node(node_result_view(n)),
        Reply::Children(c) => ReplyView::Children(children_result_view(c)),
        Reply::Layout(l) => ReplyView::Layout(l),
        Reply::Evaluation(e) => ReplyView::Evaluation(e),
    }
}

/// The root node of the page of `pipeline`.
pub open spec fn root_node_reply(pages: PageDirectory, pipeline: PipelineId) -> Result<NodeInfoView, DevtoolsError> {
    match pages.document_of(pipeline) {
        Ok(d) => Ok(info_of(d.entries()[0])),
        Err(e) => Err(e),
    }
}

/// The document element of the page of `pipeline`.
pub open spec fn document_element_of(pages: PageDirectory, pipeline: PipelineId) -> Result<NodeInfoView, DevtoolsError> {
    match pages.document_of(pipeline) {
        Ok(d) => document_element_reply(d.entries()),
        Err(e) => Err(e),
    }
}

/// The position of node `id` in the page of `pipeline`.
pub open spec fn node_position(pages: PageDirectory, pipeline: PipelineId, id: u64) -> Result<int, DevtoolsError> {
    match pages.document_of(pipeline) {
        Ok(d) => if contains_id(d.entries(), id) {
            Ok(index_of(d.entries(), id))
        } else {
            Err(DevtoolsError::NotFound)
        },
        Err(e) => Err(e),
    }
}

/// The children of node `id` in the page of `pipeline`, in document order.
pub open spec fn children_of(pages: PageDirectory, pipeline: PipelineId, id: u64) -> Result<Seq<NodeInfoView>, DevtoolsError> {
    match node_position(pages, pipeline, id) {
        Ok(p) => Ok(children_view(pages.document_of(pipeline)->Ok_0.entries(), p)),
        Err(e) => Err(e),
    }
}

/// The bounding box of node `id` in the page of `pipeline`.
pub open spec fn layout_of(pages: PageDirectory, pipeline: PipelineId, id: u64) -> Result<(u32, u32), DevtoolsError> {
    match node_position(pages, pipeline, id) {
        Ok(p) => layout_at_reply(pages.document_of(pipeline)->Ok_0.entries(), p),
        Err(e) => Err(e),
    }
}

/// Whether the command is an evaluation in a page that has a document, which the
/// dispatcher hands to the script engine.
pub open spec fn starts_evaluation(pages: PageDirectory, cmd: Command) -> bool {
    cmd.payload is EvaluateJS && pages.document_of(cmd.pipeline) is Ok
}

/// The reply that a command gets without running a script.
pub open spec fn immediate_reply(pages: PageDirectory, cmd: Command) -> ReplyView {
    match cmd.payload {
        Payload::EvaluateJS(_) => ReplyView::Evaluation(
            EvaluationResult::Error(pages.document_of(cmd.pipeline)->Err_0),
        ),
        Payload::GetRootNode => ReplyView::Node(root_node_reply(pages, cmd.pipeline)),
        Payload::GetDocumentElement => ReplyView::Node(document_element_of(pages, cmd.pipeline)),
        Payload::GetChildren(id) => ReplyView::Children(children_of(pages, cmd.pipeline, id)),
        Payload::GetLayout(id) => ReplyView::Layout(layout_of(pages, cmd.pipeline, id)),
    }
}

/// The dispatcher of one debugger session.
pub struct DevtoolsTask {
    /// The reply channel of the evaluation in progress, if one is.
    pending: Option<u64>,
    /// The reply channels of the commands received, in order.
    received: Ghost<Seq<u64>>,
    /// The reply channels answered, in order.
    replied: Ghost<Seq<u64>>,
}

impl DevtoolsTask {
    pub closed spec fn pending_reply(&self) -> Option<u64> {
        self.pending
    }

    pub closed spec fn received(&self) -> Seq<u64> {
        self.received@
    }

    pub closed spec fn replied(&self) -> Seq<u64> {
        self.replied@
    }

    /// Every command received has been answered, in order, except the one whose
    /// evaluation is in progress.
    pub open spec fn wf(&self) -> bool {
        match self.pending_reply() {
            None => self.replied() == self.received(),
            Some(c) => self.received() == self.replied().push(c),
        }
    }

    pub open spec fn is_idle(&self) -> bool {
        self.pending_reply() is None
    }

    pub fn new() -> (r: DevtoolsTask)
        ensures
            r.wf(),
            r.is_idle(),
            r.received() == Seq::<u64>::empty(),
    {
        DevtoolsTask { pending: None, received: Ghost(Seq::empty()), replied: Ghost(Seq::empty()) }
    }

    /// Whether no evaluation is in progress.
    pub fn idle(&self) -> (r: bool)
        ensures
            r == self.is_idle(),
    {
        self.pending.is_none()
    }

    /// The document of the page of `pipeline`.
    fn resolve_document<'a>(pages: &'a PageDirectory, pipeline: PipelineId) -> (r: Result<&'a Document, DevtoolsError>)
        requires
            pages.wf(),
        ensures
            match (r, pages.document_of(pipeline)) {
                (Ok(d), Ok(e)) => *d == e && d.wf(),
                (Err(e), Err(f)) => e == f,
                _ => false,
            },
    {
        match pages.resolve(pipeline) {
            Some(i) => {
                let page = pages.page(i);
                assert(page.wf());
                match &page.document {
                    Some(d) => Ok(d),
                    None => Err(DevtoolsError::PageNotReady),
                }
            },
            None => Err(DevtoolsError::NotFound),
        }
    }

    /// A snapshot of the document node of the page of `pipeline`.
    pub fn handle_get_root_node(pages: &PageDirectory, pipeline: PipelineId) -> (r: Result<NodeInfo, DevtoolsError>)
        requires
            pages.wf(),
        ensures
            node_result_view(r) == root_node_reply(*pages, pipeline),
    {
        match Self::resolve_document(pages, pipeline) {
            Ok(d) => Ok(d.root_node()),
            Err(e) => Err(e),
        }
    }

    /// A snapshot of the document element of the page of `pipeline`.
    pub fn handle_get_document_element(pages: &PageDirectory, pipeline: PipelineId) -> (r: Result<NodeInfo, DevtoolsError>)
        requires
            pages.wf(),
        ensures
            node_result_view(r) == document_element_of(*pages, pipeline),
    {
        match Self::resolve_document(pages, pipeline) {
            Ok(d) => d.document_element(),
            Err(e) => Err(e),
        }
    }

    /// Finds node `node_id` in the page of `pipeline` by a pre-order walk and returns
    /// the page's document and the node's position in it.
    pub fn find_node_by_unique_id<'a>(pages: &'a PageDirectory, pipeline: PipelineId, node_id: u64) -> (r: Result<(&'a Document, usize), DevtoolsError>)
        requires
            pages.wf(),
        ensures
            match (r, node_position(*pages, pipeline, node_id)) {
                (Ok((d, i)), Ok(p)) => {
                    &&& *d == pages.document_of(pipeline)->Ok_0
                    &&& d.wf()
                    &&& i == p
                    &&& i < d.entries().len()
                    &&& d.entries()[p].unique_id == node_id
                },
                (Err(e), Err(f)) => e == f,
                _ => false,
            },
    {
        let d = match Self::resolve_document(pages, pipeline) {
            Ok(d) => d,
            Err(e) => {
                return Err(e);
            },
        };
        match d.find_by_unique_id(node_id) {
            Some(i) => {
                proof {
                    crate::document::lemma_lookup_correct(d, node_id);
                }
                Ok((d, i))
            },
            None => Err(DevtoolsError::NotFound),
        }
    }

    /// Snapshots of the direct children of node `node_id`, in document order.
    pub fn handle_get_children(pages: &PageDirectory, pipeline: PipelineId, node_id: u64) -> (r: Result<Vec<NodeInfo>, DevtoolsError>)
        requires
            pages.wf(),
        ensures
            children_result_view(r) == children_of(*pages, pipeline, node_id),
    {
        match Self::find_node_by_unique_id(pages, pipeline, node_id) {
            Ok((d, i)) => Ok(d.children_at(i)),
            Err(e) => Err(e),
        }
    }

    /// The bounding box of element `node_id`.
    pub fn handle_get_layout(pages: &PageDirectory, pipeline: PipelineId, node_id: u64) -> (r: Result<(u32, u32), DevtoolsError>)
        requires
            pages.wf(),
        ensures
            r == layout_of(*pages, pipeline, node_id),
    {
        match Self::find_node_by_unique_id(pages, pipeline, node_id) {
            Ok((d, i)) => d.layout_at(i),
            Err(e) => Err(e),
        }
    }
    /// Completes the evaluation in progress with what the script engine produced
    /// and answers its command.
    pub fn handle_evaluate_js(&mut self, outcome: Result<ScriptValue, String>) -> (r: Envelope)
        requires
            old(self).wf(),
            old(self).pending_reply() is Some,
        ensures
            final(self).wf(),
            final(self).is_idle(),
            final(self).received() == old(self).received(),
            final(self).replied() == old(self).replied().push(r.reply_to),
            r.reply_to == old(self).pending_reply()->Some_0,
            r.reply == Reply::Evaluation(evaluation_spec(outcome)),
    {
        let reply_to = self.pending.unwrap();
        self.pending = None;
        self.replied = Ghost(self.replied@.push(reply_to));
        Envelope { reply_to, reply: Reply::Evaluation(evaluation_result(outcome)) }
    }

    /// Takes in a command. It is answered at once, unless it is an evaluation in a
    /// page that has a document: then the caller is asked to run the script.
    pub fn receive(&mut self, pages: &PageDirectory, cmd: Command) -> (r: Action)
        requires
            old(self).wf(),
            old(self).is_idle(),
            pages.wf(),
        ensures
            final(self).wf(),
            final(self).received() == old(self).received().push(cmd.reply_to),
            starts_evaluation(*pages, cmd) ==> {
                &&& final(self).pending_reply() == Some(cmd.reply_to)
                &&& final(self).replied() == old(self).replied()
                &&& r == (Action::Evaluate { pipeline: cmd.pipeline, source: cmd.payload->EvaluateJS_0 })
            },
            !starts_evaluation(*pages, cmd) ==> {
                &&& final(self).is_idle()
                &&& final(self).replied() == old(self).replied().push(cmd.reply_to)
                &&& r matches Action::Send(env)
                &&& env.reply_to == cmd.reply_to
                &&& reply_view(env.reply) == immediate_reply(*pages, cmd)
            },
    {
        let ghost c = cmd;
        let pipeline = cmd.pipeline;
        let reply_to = cmd.reply_to;
        self.received = Ghost(self.received@.push(reply_to));
        let reply = match cmd.payload {
            Payload::EvaluateJS(source) => {
                match Self::resolve_document(pages, pipeline) {
                    Ok(_) => {
                        self.pending = Some(reply_to);
                        return Action::Evaluate { pipeline, source };
                    },
                    Err(e) => Reply::Evaluation(EvaluationResult::Error(e)),
                }
            },
            Payload::GetRootNode => Reply::Node(Self::handle_get_root_node(pages, pipeline)),
            Payload::GetDocumentElement => Reply::Node(
                Self::handle_get_document_element(pages, pipeline),
            ),
            Payload::GetChildren(id) => Reply::Children(Self::handle_get_children(pages, pipeline, id)),
            Payload::GetLayout(id) => Reply::Layout(Self::handle_get_layout(pages, pipeline, id)),
        };
        self.replied = Ghost(self.replied@.push(reply_to));
        Action::Send(Envelope { reply_to, reply })
    }
}

/// Every command is answered exactly once: whenever no evaluation is in progress,
/// the channels answered are exactly the channels of the commands received, one
/// reply each and in the order received.
pub proof fn lemma_reply_totality(task: &DevtoolsTask)
    requires
        task.wf(),
        task.is_idle(),
    ensures
        task.replied().len() == task.received().len(),
        forall|i: int| 0 <= i < task.received().len() ==> #[trigger] task.replied()[i] == task.received()[i],
{
}

} // verus!

verus! {

/// A node identifier that no node of the page carries any more (its node was
/// removed, or it never existed) yields `NotFound` for both children and layout,
/// never a result of another node.
pub proof fn lemma_stale_node_id(pages: PageDirectory, pipeline: PipelineId, id: u64)
    requires
        pages.wf(),
        pages.document_of(pipeline) is Ok,
        !contains_id(pages.document_of(pipeline)->Ok_0.entries(), id),
    ensures
        children_of(pages, pipeline, id) == Err::<Seq<NodeInfoView>, DevtoolsError>(DevtoolsError::NotFound),
        layout_of(pages, pipeline, id) == Err::<(u32, u32), DevtoolsError>(DevtoolsError::NotFound),
{
}

} // verus!
