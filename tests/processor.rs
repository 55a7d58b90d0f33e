use daas::doc::DaaSDoc;
use daas::errors::daaserror::DaaSProcessingError;
use daas::provenance::ProvenanceChain;
use daas::service::processor::{ControlSignal, DaaSProcessor, DaasGenesisProcessor, Disposition, PartitionCursor};
use pbd::dua::DUA;

fn get_default_daasdoc() -> DaaSDoc {
    let src = "ButtonsRUs".to_string();
    let uid = 1212345;
    let cat = "button".to_string();
    let sub = "comedy".to_string();
    let dua = vec![DUA::new("billing".to_string(), "www.dua.org/billing.pdf".to_string(), 1553988607)];
    let dtc = ProvenanceChain::new(DaaSDoc::make_id(cat.clone(), sub.clone(), src.clone(), uid));
    let data = String::from(r#"{"status": "completed"}"#).as_bytes().to_vec();
    DaaSDoc::new(src, uid, cat, sub, "button_app".to_string(), dua, dtc, data)
}

#[test]
fn test_default_topics() {
    let topics = DaasGenesisProcessor::default_topics(&get_default_daasdoc());
    assert_eq!(topics.len(), 4);
    assert_eq!(topics[0], "button.comedy.ButtonsRUs".to_string());
    assert_eq!(topics[1], "button".to_string());
    assert_eq!(topics[2], "button.comedy".to_string());
    assert_eq!(topics[3], "ButtonsRUs".to_string());
}

#[test]
fn broker_targets_prefer_given_topics() {
    let doc = get_default_daasdoc();
    assert_eq!(DaasGenesisProcessor::broker_targets(&doc, Some(vec!["x".to_string()])), vec!["x".to_string()]);
    assert_eq!(
        DaasGenesisProcessor::broker_targets(&doc, None),
        vec![
            "button.comedy.ButtonsRUs".to_string(),
            "button".to_string(),
            "button.comedy".to_string(),
            "ButtonsRUs".to_string()
        ]
    );
}

#[test]
fn blob_key_names_topic_and_id() {
    assert_eq!(
        DaasGenesisProcessor::blob_key("genesis", "order~clothing~iStore~15000"),
        "genesis/order~clothing~iStore~15000.daas"
    );
}

#[test]
fn provisioning_succeeds_only_when_every_step_does() {
    assert_eq!(DaasGenesisProcessor::provision_result(false, None), Err(DaaSProcessingError::UpsertError));
    assert_eq!(DaasGenesisProcessor::provision_result(false, Some(true)), Err(DaaSProcessingError::UpsertError));
    assert_eq!(DaasGenesisProcessor::provision_result(true, Some(false)), Err(DaaSProcessingError::BrokerError));
    assert_eq!(DaasGenesisProcessor::provision_result(true, Some(true)), Ok(1));
    assert_eq!(DaasGenesisProcessor::provision_result(true, None), Ok(1));
}

#[test]
fn loop_stops_on_signal_or_disconnect() {
    assert!(DaaSProcessor::keep_listening(ControlSignal::Empty));
    assert!(!DaaSProcessor::keep_listening(ControlSignal::Stop));
    assert!(!DaaSProcessor::keep_listening(ControlSignal::Disconnected));
}

#[test]
fn messages_are_committed_only_after_success() {
    assert_eq!(DaaSProcessor::dispose(false, None), Disposition::Skip);
    assert_eq!(DaaSProcessor::dispose(true, Some(Ok(1))), Disposition::Commit);
    assert_eq!(DaaSProcessor::dispose(true, Some(Err(DaaSProcessingError::BrokerError))), Disposition::Withhold);
}

#[test]
fn failed_message_is_redelivered_after_restart() {
    let mut cursor = PartitionCursor::new(5);
    assert_eq!(cursor.record(5, &Ok(1)), Some(5));
    assert_eq!(cursor.resume_from(), 6);

    assert_eq!(cursor.record(6, &Err(DaaSProcessingError::UpsertError)), None);
    assert_eq!(cursor.resume_from(), 6);

    let restarted = PartitionCursor::new(cursor.resume_from());
    assert!(restarted.resume_from() <= 6);
}

#[test]
fn rebrokering_stops_at_first_failure() {
    assert_eq!(DaasGenesisProcessor::rebroker_status(&vec![], 0), Some(Ok(1)));
    assert_eq!(DaasGenesisProcessor::rebroker_status(&vec![true], 4), None);
    assert_eq!(DaasGenesisProcessor::rebroker_status(&vec![true, false], 4), Some(Err(DaaSProcessingError::BrokerError)));
    assert_eq!(DaasGenesisProcessor::rebroker_status(&vec![true, true, true, true], 4), Some(Ok(1)));
}
