use std::collections::HashMap;

use deskicons::{
    move_completed_or_finish, read_journal, recover_journal_core, render_journal, text_lines,
    Journal, JournalStage, MoveAction, PlannedMove, RecoveryOutcome,
};

fn journal(stage: JournalStage, root: &str) -> Journal {
    Journal {
        stage,
        from_guid: "from-guid".to_string(),
        to_guid: "to-guid".to_string(),
        outbound: vec![PlannedMove {
            from: format!("{root}\\desktop\\a.txt"),
            to: format!("{root}\\sets\\from-guid\\files\\a.txt"),
        }],
        inbound: vec![PlannedMove {
            from: format!("{root}\\sets\\to-guid\\files\\b.txt"),
            to: format!("{root}\\desktop\\b.txt"),
        }],
    }
}

/// A file system of paths and contents, with the active-desktop file and
/// the journal as recovery leaves them.
struct Disk {
    files: HashMap<String, String>,
    active: Option<String>,
    journal: Option<String>,
}

fn recover(disk: &mut Disk) -> RecoveryOutcome {
    let saved = disk.journal.as_ref().map(|text| read_journal(&text_lines(text)).unwrap());
    let plan = recover_journal_core(&saved);
    for step in &plan.steps {
        let src = disk.files.contains_key(&step.from);
        let dst = disk.files.contains_key(&step.to);
        match move_completed_or_finish(step, src, dst).unwrap() {
            MoveAction::MoveNow => {
                let content = disk.files.remove(&step.from).unwrap();
                disk.files.insert(step.to.clone(), content);
            }
            MoveAction::AlreadyDone => {}
        }
    }
    if let Some(guid) = plan.active_guid {
        disk.active = Some(format!("{guid}\n"));
    }
    disk.journal = None;
    plan.outcome
}

#[test]
fn journal_round_trips_unicode_paths_and_typed_stage() {
    let root = "C:\\Temp\\deskicons-journal-roundtrip";
    let mut journal = journal(JournalStage::InboundComplete, root);
    journal.outbound[0].from = format!("{root}\\ä-東京-😀 %.txt");

    let text = render_journal(&journal, JournalStage::OutboundComplete);

    let actual = read_journal(&text_lines(&text)).unwrap();
    assert_eq!(actual.stage, JournalStage::OutboundComplete);
    assert_eq!(actual.outbound[0].from, format!("{root}\\ä-東京-😀 %.txt"));
}

#[test]
fn recover_planned_rolls_back_outbound_and_clears_journal() {
    let root = "C:\\Temp\\deskicons-journal-planned";
    let journal = journal(JournalStage::Planned, root);
    let mut disk = Disk {
        files: HashMap::from([(journal.outbound[0].to.clone(), "parked".to_string())]),
        active: None,
        journal: Some(render_journal(&journal, JournalStage::Planned)),
    };

    let outcome = recover(&mut disk);

    assert_eq!(outcome, RecoveryOutcome::RolledBackToFrom);
    assert_eq!(disk.files[&journal.outbound[0].from], "parked");
    assert_eq!(disk.active.as_deref(), Some("from-guid\n"));
    assert!(disk.journal.is_none());
}

#[test]
fn recover_outbound_complete_finishes_both_move_sets() {
    let root = "C:\\Temp\\deskicons-journal-outbound";
    let journal = journal(JournalStage::OutboundComplete, root);
    let mut disk = Disk {
        files: HashMap::from([
            (journal.outbound[0].to.clone(), "parked".to_string()),
            (journal.inbound[0].from.clone(), "incoming".to_string()),
        ]),
        active: None,
        journal: Some(render_journal(&journal, JournalStage::OutboundComplete)),
    };

    let outcome = recover(&mut disk);

    assert_eq!(outcome, RecoveryOutcome::CompletedToTarget);
    assert_eq!(disk.files[&journal.outbound[0].to], "parked");
    assert_eq!(disk.files[&journal.inbound[0].to], "incoming");
    assert_eq!(disk.active.as_deref(), Some("to-guid\n"));
    assert!(disk.journal.is_none());
}

#[test]
fn journal_text_has_header_and_tagged_moves() {
    let journal = Journal {
        stage: JournalStage::Planned,
        from_guid: "f".to_string(),
        to_guid: "t".to_string(),
        outbound: vec![PlannedMove { from: "a b".to_string(), to: "c%".to_string() }],
        inbound: vec![PlannedMove { from: "d".to_string(), to: "e\tx".to_string() }],
    };
    assert_eq!(
        render_journal(&journal, JournalStage::Rollback),
        "version\t1\nstage\trollback\nfrom\tf\nto\tt\nout\ta b\tc%25\nin\td\te%09x\n"
    );
}

#[test]
fn journal_stage_names_round_trip() {
    for stage in [
        JournalStage::Planned,
        JournalStage::OutboundComplete,
        JournalStage::InboundComplete,
        JournalStage::Rollback,
    ] {
        assert_eq!(JournalStage::parse(stage.as_str()).unwrap(), stage);
    }
    assert_eq!(JournalStage::OutboundComplete.as_str(), "outbound-complete");
    assert!(JournalStage::parse("done").is_err());
}

#[test]
fn reading_a_journal_reports_its_faults() {
    let read = |text: &str| read_journal(&text_lines(text));
    assert_eq!(
        read("version\t1\nstage\tplanned\nfrom\tf\n").unwrap_err().text(),
        "Swap journal is malformed"
    );
    assert!(read("version\t1\nstage\tnope\nfrom\tf\nto\tt\n").is_err());
    let j = read("version\t2\nstage\tplanned\nfrom\tf\nto\tt\nout\ta\n").unwrap();
    assert!(j.outbound.is_empty());
    let j = read("version\t1\nstage\tplanned\nfrom\tf\nto\tt\nout\ta\tb\nin\tc\td\n").unwrap();
    assert_eq!(j.outbound, vec![PlannedMove { from: "a".to_string(), to: "b".to_string() }]);
    assert_eq!(j.inbound, vec![PlannedMove { from: "c".to_string(), to: "d".to_string() }]);
}

#[test]
fn recovery_of_a_rollback_undoes_inbound_then_outbound() {
    let root = "R";
    let journal = journal(JournalStage::Rollback, root);
    let plan = recover_journal_core(&Some(journal.clone()));
    assert_eq!(plan.outcome, RecoveryOutcome::RolledBackToFrom);
    assert_eq!(plan.active_guid.as_deref(), Some("from-guid"));
    assert_eq!(
        plan.steps,
        vec![journal.inbound[0].reversed(), journal.outbound[0].reversed()]
    );
    let none = recover_journal_core(&None);
    assert_eq!(none.outcome, RecoveryOutcome::NoJournal);
    assert!(none.steps.is_empty() && none.active_guid.is_none());
}

#[test]
fn recovery_twice_leaves_the_same_state() {
    let root = "C:\\Temp\\deskicons-journal-twice";
    let journal = journal(JournalStage::InboundComplete, root);
    let mut disk = Disk {
        files: HashMap::from([
            (journal.outbound[0].to.clone(), "parked".to_string()),
            (journal.inbound[0].to.clone(), "incoming".to_string()),
        ]),
        active: None,
        journal: Some(render_journal(&journal, JournalStage::InboundComplete)),
    };
    assert_eq!(recover(&mut disk), RecoveryOutcome::CompletedToTarget);
    let after = disk.files.clone();
    disk.journal = Some(render_journal(&journal, JournalStage::InboundComplete));
    assert_eq!(recover(&mut disk), RecoveryOutcome::CompletedToTarget);
    assert_eq!(disk.files, after);
}

#[test]
fn an_interrupted_recovery_can_be_run_again() {
    let root = "C:\\Temp\\deskicons-journal-interrupted";
    let journal = journal(JournalStage::OutboundComplete, root);
    let start = HashMap::from([
        (journal.outbound[0].to.clone(), "parked".to_string()),
        (journal.inbound[0].from.clone(), "incoming".to_string()),
    ]);
    let mut whole = Disk {
        files: start.clone(),
        active: None,
        journal: Some(render_journal(&journal, JournalStage::OutboundComplete)),
    };
    recover(&mut whole);
    // Recovery cut off after its first step, then run again from the journal.
    let mut cut = Disk {
        files: start,
        active: None,
        journal: Some(render_journal(&journal, JournalStage::OutboundComplete)),
    };
    let plan = recover_journal_core(&Some(journal.clone()));
    let first = &plan.steps[0];
    let src = cut.files.contains_key(&first.from);
    let dst = cut.files.contains_key(&first.to);
    if move_completed_or_finish(first, src, dst).unwrap() == MoveAction::MoveNow {
        let content = cut.files.remove(&first.from).unwrap();
        cut.files.insert(first.to.clone(), content);
    }
    recover(&mut cut);
    assert_eq!(cut.files, whole.files);
    assert_eq!(cut.active, whole.active);
}
