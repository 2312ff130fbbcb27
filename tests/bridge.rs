use devtools_bridge::devtools::{Action, Command, DevtoolsTask, Payload, Reply};
use devtools_bridge::document::{Document, MutationError, NodeData, NodeInfo};
use devtools_bridge::errorevent::{
    propagate_error, ConsoleForwarder, ErrorEvent, ErrorEventInit, Severity,
};
use devtools_bridge::evaluation::evaluation_result;
use devtools_bridge::pages::{Page, PageDirectory};
use devtools_bridge::types::{
    Attribute, DevtoolsError, EvaluationResult, NodeKind, PipelineId, ScriptValue,
};

fn element(name: &str, width: u32, height: u32) -> NodeData {
    NodeData {
        kind: NodeKind::Element,
        name: name.to_string(),
        value: String::new(),
        attributes: vec![Attribute { name: "id".to_string(), value: name.to_string() }],
        width,
        height,
    }
}

fn text(value: &str) -> NodeData {
    NodeData {
        kind: NodeKind::Text,
        name: "#text".to_string(),
        value: value.to_string(),
        attributes: Vec::new(),
        width: 0,
        height: 0,
    }
}

/// document(0) > html(1) > [head(2), body(3) > [div(4) > text(6), p(5)]]
fn sample_document() -> Document {
    let mut d = Document::new("#document".to_string());
    assert_eq!(d.append_child(0, element("html", 800, 600)).unwrap(), 1);
    assert_eq!(d.append_child(1, element("head", 0, 0)).unwrap(), 2);
    assert_eq!(d.append_child(1, element("body", 800, 580)).unwrap(), 3);
    assert_eq!(d.append_child(3, element("div", 100, 20)).unwrap(), 4);
    assert_eq!(d.append_child(3, element("p", 50, 10)).unwrap(), 5);
    assert_eq!(d.append_child(4, text("hello")).unwrap(), 6);
    d
}

fn directory_with(pipeline: u64, document: Option<Document>) -> PageDirectory {
    let mut pages = PageDirectory::new();
    assert!(pages.add_page(Page::new(PipelineId(pipeline), document)).is_none());
    pages
}

fn ids(infos: &[NodeInfo]) -> Vec<u64> {
    infos.iter().map(|n| n.unique_id).collect()
}

fn command(pipeline: u64, payload: Payload, reply_to: u64) -> Command {
    Command { pipeline: PipelineId(pipeline), payload, reply_to }
}

#[test]
fn evaluate_true_yields_boolean() {
    let r = evaluation_result(Ok(ScriptValue::Boolean(true)));
    assert!(matches!(r, EvaluationResult::Boolean(true)));
}

#[test]
fn evaluate_number_yields_number() {
    let r = evaluation_result(Ok(ScriptValue::Number(42.0f64.to_bits())));
    match r {
        EvaluationResult::Number(bits) => assert_eq!(f64::from_bits(bits), 42.0),
        other => panic!("unexpected {:?}", other),
    }
}

#[test]
fn evaluate_string_yields_string() {
    let r = evaluation_result(Ok(ScriptValue::String("hi".to_string())));
    match r {
        EvaluationResult::String(s) => assert_eq!(s, "hi"),
        other => panic!("unexpected {:?}", other),
    }
}

#[test]
fn evaluate_nothing_yields_void() {
    assert!(matches!(evaluation_result(Ok(ScriptValue::Undefined)), EvaluationResult::Void));
}

#[test]
fn evaluate_object_is_unimplemented() {
    let r = evaluation_result(Ok(ScriptValue::Object));
    assert!(matches!(r, EvaluationResult::Error(DevtoolsError::Unimplemented)));
}

#[test]
fn evaluate_null_is_unimplemented() {
    let r = evaluation_result(Ok(ScriptValue::Null));
    assert!(matches!(r, EvaluationResult::Error(DevtoolsError::Unimplemented)));
}

#[test]
fn evaluate_thrown_error_carries_message() {
    let r = evaluation_result(Err("ReferenceError: x is not defined".to_string()));
    match r {
        EvaluationResult::Error(DevtoolsError::ScriptError(m)) => {
            assert_eq!(m, "ReferenceError: x is not defined")
        }
        other => panic!("unexpected {:?}", other),
    }
}

#[test]
fn identifiers_are_unique_and_fresh() {
    let mut d = sample_document();
    assert_eq!(d.len(), 7);
    let mut seen: Vec<usize> = Vec::new();
    for id in 0..7u64 {
        let i = d.find_by_unique_id(id).unwrap();
        assert_eq!(d.summarize(i).unique_id, id);
        assert!(!seen.contains(&i));
        seen.push(i);
    }
    d.remove_node(4).unwrap();
    assert_eq!(d.append_child(3, element("span", 1, 1)).unwrap(), 7);
    assert!(d.find_by_unique_id(4).is_none());
    assert!(d.find_by_unique_id(6).is_none());
}

#[test]
fn lookup_finds_present_node_only() {
    let d = sample_document();
    let i = d.find_by_unique_id(5).unwrap();
    let info = d.summarize(i);
    assert_eq!(info.name, "p");
    assert_eq!(info.kind, NodeKind::Element);
    assert_eq!(info.attributes.len(), 1);
    assert_eq!(info.attributes[0].value, "p");
    assert!(d.find_by_unique_id(99).is_none());
}

#[test]
fn lookup_order_is_preorder() {
    let d = sample_document();
    let positions: Vec<usize> = (0..7u64).map(|id| d.find_by_unique_id(id).unwrap()).collect();
    assert_eq!(positions, vec![0, 1, 2, 3, 4, 6, 5]);
}

#[test]
fn children_come_in_document_order() {
    let pages = directory_with(1, Some(sample_document()));
    let html = DevtoolsTask::handle_get_children(&pages, PipelineId(1), 1).unwrap();
    assert_eq!(ids(&html), vec![2, 3]);
    let body = DevtoolsTask::handle_get_children(&pages, PipelineId(1), 3).unwrap();
    assert_eq!(ids(&body), vec![4, 5]);
    let root = DevtoolsTask::handle_get_children(&pages, PipelineId(1), 0).unwrap();
    assert_eq!(ids(&root), vec![1]);
    let div = DevtoolsTask::handle_get_children(&pages, PipelineId(1), 4).unwrap();
    assert_eq!(div.len(), 1);
    assert_eq!(div[0].value, "hello");
}

#[test]
fn leaf_has_no_children() {
    let pages = directory_with(1, Some(sample_document()));
    let r = DevtoolsTask::handle_get_children(&pages, PipelineId(1), 6).unwrap();
    assert!(r.is_empty());
}

#[test]
fn stale_id_after_removal_is_not_found() {
    let mut d = sample_document();
    d.remove_node(3).unwrap();
    assert_eq!(d.len(), 3);
    let pages = directory_with(1, Some(d));
    for id in [3u64, 4, 5, 6] {
        assert!(matches!(
            DevtoolsTask::handle_get_layout(&pages, PipelineId(1), id),
            Err(DevtoolsError::NotFound)
        ));
        assert!(matches!(
            DevtoolsTask::handle_get_children(&pages, PipelineId(1), id),
            Err(DevtoolsError::NotFound)
        ));
    }
    let html = DevtoolsTask::handle_get_children(&pages, PipelineId(1), 1).unwrap();
    assert_eq!(ids(&html), vec![2]);
}

#[test]
fn layout_of_element_and_non_element() {
    let pages = directory_with(1, Some(sample_document()));
    assert_eq!(DevtoolsTask::handle_get_layout(&pages, PipelineId(1), 4).unwrap(), (100, 20));
    assert!(matches!(
        DevtoolsTask::handle_get_layout(&pages, PipelineId(1), 6),
        Err(DevtoolsError::NotAnElement)
    ));
    assert!(matches!(
        DevtoolsTask::handle_get_layout(&pages, PipelineId(1), 0),
        Err(DevtoolsError::NotAnElement)
    ));
}

#[test]
fn root_and_document_element() {
    let pages = directory_with(1, Some(sample_document()));
    let root = DevtoolsTask::handle_get_root_node(&pages, PipelineId(1)).unwrap();
    assert_eq!(root.unique_id, 0);
    assert_eq!(root.kind, NodeKind::Document);
    assert_eq!(root.name, "#document");
    let html = DevtoolsTask::handle_get_document_element(&pages, PipelineId(1)).unwrap();
    assert_eq!(html.unique_id, 1);
    assert_eq!(html.name, "html");
}

#[test]
fn document_element_absent() {
    let mut d = Document::new("#document".to_string());
    d.append_child(0, NodeData {
        kind: NodeKind::Comment,
        name: "#comment".to_string(),
        value: "c".to_string(),
        attributes: Vec::new(),
        width: 0,
        height: 0,
    })
    .unwrap();
    let pages = directory_with(1, Some(d));
    assert!(matches!(
        DevtoolsTask::handle_get_document_element(&pages, PipelineId(1)),
        Err(DevtoolsError::NotFound)
    ));
}

#[test]
fn unknown_pipeline_and_missing_document() {
    let mut pages = directory_with(1, None);
    assert!(matches!(
        DevtoolsTask::handle_get_root_node(&pages, PipelineId(2)),
        Err(DevtoolsError::NotFound)
    ));
    assert!(matches!(
        DevtoolsTask::handle_get_root_node(&pages, PipelineId(1)),
        Err(DevtoolsError::PageNotReady)
    ));
    assert!(pages.remove_page(PipelineId(1)).is_some());
    assert!(pages.resolve(PipelineId(1)).is_none());
}

#[test]
fn duplicate_pipeline_is_handed_back() {
    let mut pages = directory_with(1, None);
    let back = pages.add_page(Page::new(PipelineId(1), Some(sample_document())));
    assert!(back.is_some());
    assert!(matches!(
        DevtoolsTask::handle_get_root_node(&pages, PipelineId(1)),
        Err(DevtoolsError::PageNotReady)
    ));
}

#[test]
fn mutation_errors() {
    let mut d = sample_document();
    assert!(matches!(d.append_child(42, element("x", 0, 0)), Err(MutationError::NoSuchNode)));
    assert!(matches!(d.append_child(6, element("x", 0, 0)), Err(MutationError::InvalidChild)));
    let doc_node = NodeData {
        kind: NodeKind::Document,
        name: "#document".to_string(),
        value: String::new(),
        attributes: Vec::new(),
        width: 0,
        height: 0,
    };
    assert!(matches!(d.append_child(1, doc_node), Err(MutationError::InvalidChild)));
    assert!(matches!(d.remove_node(0), Err(MutationError::RootNotRemovable)));
    assert!(matches!(d.remove_node(42), Err(MutationError::NoSuchNode)));
    assert_eq!(d.len(), 7);
}

#[test]
fn every_command_gets_one_reply() {
    let pages = directory_with(1, Some(sample_document()));
    let mut task = DevtoolsTask::new();
    let commands = vec![
        command(1, Payload::GetRootNode, 10),
        command(2, Payload::GetRootNode, 11),
        command(1, Payload::GetDocumentElement, 12),
        command(1, Payload::GetChildren(3), 13),
        command(1, Payload::GetLayout(99), 14),
        command(5, Payload::EvaluateJS("1".to_string()), 15),
        command(1, Payload::EvaluateJS("true".to_string()), 16),
    ];
    let mut answered: Vec<u64> = Vec::new();
    for cmd in commands {
        match task.receive(&pages, cmd) {
            Action::Send(env) => answered.push(env.reply_to),
            Action::Evaluate { pipeline, source } => {
                assert_eq!(pipeline, PipelineId(1));
                assert_eq!(source, "true");
                assert!(!task.idle());
                let env = task.handle_evaluate_js(Ok(ScriptValue::Boolean(true)));
                assert!(matches!(env.reply, Reply::Evaluation(EvaluationResult::Boolean(true))));
                answered.push(env.reply_to);
            }
        }
        assert!(task.idle());
    }
    assert_eq!(answered, vec![10, 11, 12, 13, 14, 15, 16]);
}

#[test]
fn replies_for_unknown_pipeline() {
    let pages = PageDirectory::new();
    let mut task = DevtoolsTask::new();
    match task.receive(&pages, command(3, Payload::GetChildren(0), 7)) {
        Action::Send(env) => {
            assert_eq!(env.reply_to, 7);
            assert!(matches!(env.reply, Reply::Children(Err(DevtoolsError::NotFound))));
        }
        other => panic!("unexpected {:?}", other),
    }
    match task.receive(&pages, command(3, Payload::EvaluateJS("1".to_string()), 8)) {
        Action::Send(env) => {
            assert_eq!(env.reply_to, 8);
            assert!(matches!(
                env.reply,
                Reply::Evaluation(EvaluationResult::Error(DevtoolsError::NotFound))
            ));
        }
        other => panic!("unexpected {:?}", other),
    }
}

#[test]
fn evaluation_without_document_is_not_ready() {
    let pages = directory_with(4, None);
    let mut task = DevtoolsTask::new();
    match task.receive(&pages, command(4, Payload::EvaluateJS("1".to_string()), 1)) {
        Action::Send(env) => assert!(matches!(
            env.reply,
            Reply::Evaluation(EvaluationResult::Error(DevtoolsError::PageNotReady))
        )),
        other => panic!("unexpected {:?}", other),
    }
}

#[test]
fn evaluation_of_object_replies_unimplemented() {
    let pages = directory_with(1, Some(sample_document()));
    let mut task = DevtoolsTask::new();
    let act = task.receive(&pages, command(1, Payload::EvaluateJS("({})".to_string()), 3));
    assert!(matches!(act, Action::Evaluate { .. }));
    let env = task.handle_evaluate_js(Ok(ScriptValue::Object));
    assert_eq!(env.reply_to, 3);
    assert!(matches!(
        env.reply,
        Reply::Evaluation(EvaluationResult::Error(DevtoolsError::Unimplemented))
    ));
    assert!(task.idle());
}

fn script_error(message: &str) -> ErrorEvent {
    ErrorEvent::new(
        "error".to_string(),
        false,
        true,
        message.to_string(),
        "app.js".to_string(),
        3,
        14,
        ScriptValue::Null,
    )
}

#[test]
fn log_without_debugger_is_dropped() {
    let mut fwd = ConsoleForwarder::new();
    propagate_error(&mut fwd, PipelineId(1), Severity::Log, &script_error("boom"));
    assert!(!fwd.is_attached());
    assert!(fwd.take_messages().is_empty());
}

#[test]
fn log_with_debugger_is_delivered_verbatim() {
    let mut fwd = ConsoleForwarder::new();
    fwd.attach(4);
    propagate_error(&mut fwd, PipelineId(9), Severity::Log, &script_error("Uncaught  \"boom\"\n"));
    propagate_error(&mut fwd, PipelineId(2), Severity::Log, &script_error("second"));
    let msgs = fwd.take_messages();
    assert_eq!(msgs.len(), 2);
    assert_eq!(msgs[0].pipeline, PipelineId(9));
    assert_eq!(msgs[0].text, "Uncaught  \"boom\"\n");
    assert_eq!(msgs[1].pipeline, PipelineId(2));
    assert_eq!(msgs[1].text, "second");
    assert!(fwd.take_messages().is_empty());
}

#[test]
fn warn_is_not_forwarded() {
    let mut fwd = ConsoleForwarder::new();
    fwd.attach(4);
    propagate_error(&mut fwd, PipelineId(1), Severity::Warn, &script_error("careful"));
    assert!(fwd.take_messages().is_empty());
}

#[test]
fn full_queue_drops_new_messages() {
    let mut fwd = ConsoleForwarder::new();
    fwd.attach(1);
    propagate_error(&mut fwd, PipelineId(1), Severity::Log, &script_error("first"));
    propagate_error(&mut fwd, PipelineId(1), Severity::Log, &script_error("second"));
    let msgs = fwd.take_messages();
    assert_eq!(msgs.len(), 1);
    assert_eq!(msgs[0].text, "first");
    fwd.detach();
    propagate_error(&mut fwd, PipelineId(1), Severity::Log, &script_error("third"));
    assert!(fwd.take_messages().is_empty());
}

#[test]
fn error_event_constructor_defaults() {
    let init = ErrorEventInit {
        bubbles: true,
        cancelable: false,
        message: None,
        filename: Some("index.js".to_string()),
        lineno: None,
        colno: Some(7),
        error: ScriptValue::String("bad".to_string()),
    };
    let ev = ErrorEvent::Constructor("error".to_string(), &init);
    assert_eq!(ev.Type(), "error");
    assert!(ev.Bubbles());
    assert!(!ev.Cancelable());
    assert_eq!(ev.Message(), "");
    assert_eq!(ev.Filename(), "index.js");
    assert_eq!(ev.Lineno(), 0);
    assert_eq!(ev.Colno(), 7);
    assert!(matches!(ev.Error(), ScriptValue::String(s) if s == "bad"));
}

#[test]
fn error_event_new_and_uninitialized() {
    let ev = script_error("oops");
    assert_eq!(ev.Message(), "oops");
    assert_eq!(ev.Filename(), "app.js");
    assert_eq!(ev.Lineno(), 3);
    assert_eq!(ev.Colno(), 14);
    assert!(ev.Cancelable());
    assert!(matches!(ev.Error(), ScriptValue::Null));
    let blank = ErrorEvent::new_uninitialized();
    assert_eq!(blank.Type(), "");
    assert_eq!(blank.Message(), "");
    assert_eq!(blank.Lineno(), 0);
    assert!(matches!(blank.Error(), ScriptValue::Null));
}
