use rig_bdi::effects::{Effect, Effectful, Recovery, effect_of_name};

#[test]
fn pure_is_retryable() {
    assert_eq!(Effect::Pure.recovery(), Recovery::Retry);
    assert!(Effect::Pure.backtrackable());
}

#[test]
fn irreversible_requires_review() {
    assert_eq!(Effect::Irreversible.recovery(), Recovery::ManualReview);
    assert!(!Effect::Irreversible.backtrackable());
}

#[test]
fn effect_cost_ordering() {
    assert!(Effect::Pure.cost_weight() < Effect::Observe.cost_weight());
    assert!(Effect::Observe.cost_weight() < Effect::Mutate.cost_weight());
    assert!(Effect::Mutate.cost_weight() < Effect::Irreversible.cost_weight());
}

#[test]
fn serde_roundtrip() {
    let effect = Effect::Mutate;
    let name = effect.name_string();
    let back: Effect = effect_of_name(name.as_str()).unwrap();
    assert_eq!(effect, back);
}

#[test]
fn effect_name_round_trips_for_every_variant() {
    for effect in [Effect::Pure, Effect::Observe, Effect::Mutate, Effect::Irreversible] {
        let name = effect.name_string();
        assert_eq!(effect_of_name(name.as_str()), Some(effect));
    }
    assert_eq!(effect_of_name("Unknown"), None);
}

struct ParseJson;

struct ReadMetrics;

struct RestartDeployment;

struct SendPagerDutyAlert;

impl Effectful for ParseJson {
    fn effect(&self) -> Effect {
        Effect::Pure
    }
}

impl Effectful for ReadMetrics {
    fn effect(&self) -> Effect {
        Effect::Observe
    }
}

impl Effectful for RestartDeployment {
    fn effect(&self) -> Effect {
        Effect::Mutate
    }
}

impl Effectful for SendPagerDutyAlert {
    fn effect(&self) -> Effect {
        Effect::Irreversible
    }
}

#[test]
fn derive_supports_all_effect_variants() {
    assert_eq!(ParseJson.effect(), Effect::Pure);
    assert_eq!(ReadMetrics.effect(), Effect::Observe);
    assert_eq!(RestartDeployment.effect(), Effect::Mutate);
    assert_eq!(SendPagerDutyAlert.effect(), Effect::Irreversible);
}

#[test]
fn recovery_matches_effect_severity() {
    assert_eq!(Effect::Observe.recovery(), Recovery::Retry);
    assert_eq!(Effect::Mutate.recovery(), Recovery::CheckAndRetry);
    assert_eq!(Effect::Pure.cost_weight(), 1);
    assert_eq!(Effect::Observe.cost_weight(), 2);
    assert_eq!(Effect::Mutate.cost_weight(), 10);
    assert_eq!(Effect::Irreversible.cost_weight(), 100);
}
