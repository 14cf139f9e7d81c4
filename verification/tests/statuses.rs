use herdr_caffeinate::model::{AgentStatus, AgentStatusChanged, HerdrMessage, PaneState};
use herdr_caffeinate::statuses::{
    apply_message, has_working_agent, update_agent_status, PaneStatuses,
};

fn statuses_from(panes: &[(&str, AgentStatus)]) -> PaneStatuses {
    let mut list = Vec::new();
    for (pane_id, agent_status) in panes {
        list.push(PaneState {
            pane_id: String::from(*pane_id),
            agent_status: *agent_status,
        });
    }
    PaneStatuses::from_panes(list)
}

#[test]
fn routes_status_message_for_tracked_pane() {
    let mut statuses = statuses_from(&[("pane-1", AgentStatus::Idle)]);

    apply_message(
        HerdrMessage::Status(AgentStatusChanged {
            pane_id: String::from("pane-1"),
            agent_status: AgentStatus::Working,
        }),
        &mut statuses,
    );

    assert_eq!(statuses.get("pane-1"), Some(AgentStatus::Working));
}

#[test]
fn ignores_status_message_for_untracked_pane() {
    let mut statuses = PaneStatuses::new();

    apply_message(
        HerdrMessage::Status(AgentStatusChanged {
            pane_id: String::from("closed-pane"),
            agent_status: AgentStatus::Working,
        }),
        &mut statuses,
    );

    assert!(statuses.is_empty());
}

#[test]
fn ignores_status_for_untracked_panes() {
    let mut statuses = statuses_from(&[("pane-1", AgentStatus::Working)]);

    update_agent_status(
        &mut statuses,
        &AgentStatusChanged {
            pane_id: String::from("closed-pane"),
            agent_status: AgentStatus::Working,
        },
    );

    assert!(!statuses.contains_key("closed-pane"));
}

#[test]
fn working_status_is_detected() {
    let statuses = statuses_from(&[("pane-1", AgentStatus::Working)]);
    assert!(has_working_agent(&statuses));
}

#[test]
fn non_working_statuses_are_not_detected() {
    let statuses = statuses_from(&[
        ("pane-1", AgentStatus::Idle),
        ("pane-2", AgentStatus::Done),
    ]);
    assert!(!has_working_agent(&statuses));
}

#[test]
fn one_working_pane_keeps_the_aggregate_working() {
    let statuses = statuses_from(&[
        ("pane-1", AgentStatus::Idle),
        ("pane-2", AgentStatus::Working),
    ]);
    assert!(has_working_agent(&statuses));
}
