use std::collections::HashMap;
use tools_core::entity::{Protocol, TaskMeta, TypeQuery};
use tools_core::history::History;
use tools_core::ids::Uid;
use tools_core::clock::{CALENDAR_MAX_NS, CALENDAR_MIN_NS};
use tools_core::polling::Metrics;
use tools_core::report::{LINE_DOTTED, LINE_DOUBLE, SPACES, TITLE};
use tools_core::taskgroup::{
    task_position_to_idx, GroupError, GroupTask, ParseError, Snapshot, SnapshotManager, TaskData,
    TaskDataUpdateMessage, TaskGroup, TaskGroupId, TaskGroupName, TaskPosition, GROUP_NAME_MAX_LEN,
    GROUP_NAME_MIN_LEN,
};

fn task(result: &str) -> GroupTask<String> {
    GroupTask {
        meta: TaskMeta {
            protocol: Protocol::Snmp,
            type_query: TypeQuery::SnmpGet,
            name: "n".to_string(),
            target: "t".to_string(),
            subject: "s".to_string(),
        },
        data: TaskData { result: result.to_string(), metrics: Metrics::initial(), last_update: 0 },
        history: History::new(2),
    }
}

fn msg(result: &str) -> TaskDataUpdateMessage<String> {
    TaskDataUpdateMessage { task_result: result.to_string(), metrics: Metrics::initial().with_error() }
}

#[test]
fn group_name_bounds() {
    assert_eq!(GROUP_NAME_MIN_LEN, 1);
    assert_eq!(GROUP_NAME_MAX_LEN, 64);
    assert_eq!(
        TaskGroupName::parse("").unwrap_err(),
        ParseError::CantBeEmpty { name: "GroupName".to_string() }
    );
    let long = "x".repeat(65);
    assert_eq!(
        TaskGroupName::parse(&long).unwrap_err(),
        ParseError::InvalidLength { message: "too long (got 65, max 64)".to_string(), min: 1, max: 64, provide: 65 }
    );
    assert_eq!(TaskGroupName::parse(&"y".repeat(64)).unwrap().as_str().len(), 64);
    assert_eq!(TaskGroupName::parse("crossroads").unwrap().as_str(), "crossroads");
}

#[test]
fn group_name_counts_bytes_not_chars() {
    // 33 two-byte characters are 66 bytes
    let wide = "é".repeat(33);
    match TaskGroupName::parse(&wide) {
        Err(ParseError::InvalidLength { provide, message, .. }) => {
            assert_eq!(provide, 66);
            assert_eq!(message, "too long (got 66, max 64)");
        }
        _ => panic!("expected a length error"),
    }
}

#[test]
fn group_add_get_update() {
    let mut g = TaskGroup::new_empty(TaskGroupName::parse("g").unwrap());
    assert_eq!(g.add_taskstate(task("a")), TaskPosition(0));
    assert_eq!(g.add_taskstate(task("b")), TaskPosition(1));
    assert_eq!(g.len(), 2);
    assert_eq!(g.name().as_str(), "g");
    assert_eq!(g.get_task(&TaskPosition(1)).unwrap().data.result, "b");
    assert!(g.get_task(&TaskPosition(2)).is_none());
    g.update(&TaskPosition(0), msg("a2")).unwrap();
    let t = &g.tasks()[0];
    assert_eq!(t.data.result, "a2");
    assert_eq!(t.data.metrics.errors, 1);
    assert_eq!(t.history.len(), 1);
    assert_eq!(t.history.get(0).result, "a");
    assert_eq!(
        g.update(&TaskPosition(5), msg("x")),
        Err(GroupError::NotFound("Task at position 5 not found".to_string()))
    );
    assert!(g.last_update() > 0);
}

#[test]
fn snapshot_routes_updates() {
    let g0 = TaskGroup::new(TaskGroupName::parse("a").unwrap(), vec![task("x"), task("y")]);
    let mut snap = Snapshot::new_empty();
    assert_eq!(snap.add_group(g0), TaskGroupId(0));
    assert_eq!(snap.add_group(TaskGroup::new(TaskGroupName::parse("b").unwrap(), vec![task("z")])), TaskGroupId(1));
    assert_eq!(snap.total_tasks(), 3);
    snap.update_taskstate(&TaskGroupId(1), &TaskPosition(0), msg("z2")).unwrap();
    assert_eq!(snap.groups()[1].tasks()[0].data.result, "z2");
    assert_eq!(
        snap.update_taskstate(&TaskGroupId(4), &TaskPosition(0), msg("q")),
        Err(GroupError::NotFound("Group 4 not found".to_string()))
    );
    assert!(snap.update_taskstate(&TaskGroupId(0), &TaskPosition(9), msg("q")).is_err());
    assert!(snap.last_update() > 0);
    assert_eq!(Snapshot::<String>::new(vec![]).groups().len(), 0);
}

#[test]
fn snapshot_manager_routes_by_uid() {
    let group = TaskGroup::new(TaskGroupName::parse("a").unwrap(), vec![task("x")]);
    let snap = Snapshot::new(vec![group]);
    let mut mapping = HashMap::new();
    mapping.insert(10u64, (TaskGroupId(0), TaskPosition(0)));
    mapping.insert(11u64, (TaskGroupId(3), TaskPosition(0)));
    let mut mgr = SnapshotManager::new(snap, mapping);
    assert!(mgr.can_route(Uid(10)));
    assert!(!mgr.can_route(Uid(11)));
    assert!(!mgr.can_route(Uid(12)));
    assert_eq!(mgr.update(Uid(10), msg("x2")), (TaskGroupId(0), TaskPosition(0)));
    assert_eq!(mgr.snapshot().groups()[0].tasks()[0].data.result, "x2");
    assert_eq!(mgr.snapshot().total_tasks(), 1);
}

#[test]
fn positions_and_ids_round_trip() {
    assert_eq!(task_position_to_idx(&TaskPosition::new(4)), 4);
    assert_eq!(TaskGroupId::new(2).as_usize(), 2);
    assert_eq!(Uid::new(5), Uid(5));
}

fn report_snapshot(metrics: Metrics) -> Snapshot<String> {
    let mut t = task("x");
    t.data.metrics = metrics;
    Snapshot::new(vec![TaskGroup::new(TaskGroupName::parse("a").unwrap(), vec![t])])
}

#[test]
fn report_renders_every_part() {
    let snap = report_snapshot(Metrics::initial().with_success(5));
    let results = vec![vec![vec!["Snmp-get response:".to_string(), "ok".to_string()]]];
    let times = vec![vec!["T".to_string()]];
    let text = snap.render(&results, "L", &times);
    let expected = format!(
        "{d}\n{sp}SNAPSHOT\n{d}\nLast update: L\nTotal groups: 1 Total tasks: 1\n\n\
         Task group name: a (1 tasks)\n\nTask name: 'n'\nTarget: t\nSubject: s\n\
         Snmp-get response:\nok\n\
         Requests| Total: 1 Successfull: 1 Errors: 0\n\
         Latency ms| Current: 5 Avg: 5 Min: 5 Max: 5\n\
         Last update: T\n{dots}\n",
        d = LINE_DOUBLE,
        sp = SPACES,
        dots = LINE_DOTTED,
    );
    assert_eq!(text, expected);
    assert_eq!(LINE_DOUBLE.chars().count(), 76);
    assert_eq!(LINE_DOTTED.chars().count(), 80);
    assert_eq!(SPACES.len(), 38);
    assert_eq!(TITLE, "SNAPSHOT");
}

#[test]
fn report_hides_metrics_before_first_poll_and_unset_minimum() {
    let snap = report_snapshot(Metrics::initial());
    let text = snap.render(&vec![vec![vec![]]], "L", &vec![vec!["T".to_string()]]);
    assert!(!text.contains("Requests|"));
    assert!(text.ends_with(&("Subject: s\nLast update: T\n".to_string() + LINE_DOTTED + "\n")));
    let snap = report_snapshot(Metrics::initial().with_error());
    let text = snap.render(&vec![vec![vec![]]], "L", &vec![vec!["T".to_string()]]);
    assert!(text.contains("Requests| Total: 1 Successfull: 0 Errors: 1\nLatency ms| Current: 0 Avg: 0 Min: 0 Max: 0\n"));
}

#[test]
fn report_to_text_writes_times() {
    let snap = report_snapshot(Metrics::initial());
    let text = snap.to_text(&vec![vec![vec!["r".to_string()]]]);
    assert!(text.starts_with(LINE_DOUBLE));
    assert!(text.contains("Total groups: 1 Total tasks: 1\n\n"));
    assert!(text.contains("Subject: s\nr\nLast update: "));
    let empty: Snapshot<String> = Snapshot::new_empty();
    let text = empty.to_text(&vec![]);
    assert!(text.contains("Total groups: 0 Total tasks: 0\n\n"));
    assert!(text.ends_with("\n\n"));
}

fn time_line_for(ns: i128) -> String {
    let mut t = task("x");
    t.data.last_update = ns;
    let snap = Snapshot::new(vec![TaskGroup::new(TaskGroupName::parse("a").unwrap(), vec![t])]);
    let text = snap.to_text(&vec![vec![vec![]]]);
    let start = text.find("Subject: s\nLast update: ").unwrap() + "Subject: s\nLast update: ".len();
    text[start..].lines().next().unwrap().to_string()
}

#[test]
fn report_times_outside_the_calendar_are_nanoseconds() {
    assert_eq!(time_line_for(CALENDAR_MAX_NS + 1), "8210266876800000000000");
    assert_eq!(time_line_for(CALENDAR_MIN_NS - 1), "-8334601228800000000001");
    assert_eq!(time_line_for(i128::MIN), "-170141183460469231731687303715884105728");
    assert_eq!(time_line_for(i128::MAX), "170141183460469231731687303715884105727");
    assert_ne!(time_line_for(CALENDAR_MAX_NS), "8210266876799999999999");
    assert_ne!(time_line_for(CALENDAR_MIN_NS), "-8334601228800000000000");
    assert!(time_line_for(0).contains("1970") || time_line_for(0).contains("1969"));
}

#[test]
fn report_times_keep_nanoseconds() {
    let line = time_line_for(1_700_000_000_123_456_789);
    assert!(line.contains(".123456789"), "{line}");
}
