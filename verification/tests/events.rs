use executorch_bencher::artifacts::ArtifactKind;
use executorch_bencher::events::{ArtifactCreatedEvent, Event, ModelRegisteredEvent};

#[test]
fn event_names_match_the_documented_set() {
    let a = Event::ArtifactCreated(ArtifactCreatedEvent {
        id: 1,
        kind: ArtifactKind::Prompt,
        sha256: "a".repeat(64),
        size_bytes: 1,
    });
    let m = Event::ModelRegistered(ModelRegisteredEvent { id: 2, original_name: "m.pte".into(), sha256: "b".repeat(64) });
    assert_eq!(a.name(), "artifact.created");
    assert_eq!(m.name(), "model.registered");
}
