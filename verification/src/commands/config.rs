//! The settings, as the user interface asks for them.
use vstd::prelude::*;

use crate::input_listener::InputListener;
use crate::storage::{AppConfig, SafetyRule};
use crate::storage;

verus! {

/// The recognition settings would start the same engine.
pub open spec fn same_engine(a: AppConfig, b: AppConfig) -> bool {
    &&& a.asr.provider == b.asr.provider
    &&& a.asr.volcengine.app_key@ == b.asr.volcengine.app_key@
    &&& a.asr.volcengine.access_key@ == b.asr.volcengine.access_key@
    &&& a.asr.volcengine.resource_id@ == b.asr.volcengine.resource_id@
    &&& a.asr.sensevoice.model_dir@ == b.asr.sensevoice.model_dir@
    &&& a.asr.sensevoice.language@ == b.asr.sensevoice.language@
    &&& a.asr.sensevoice.use_gpu == b.asr.sensevoice.use_gpu
    &&& a.asr.zipformer.model_dir@ == b.asr.zipformer.model_dir@
    &&& a.asr.zipformer.enable_endpoint == b.asr.zipformer.enable_endpoint
    &&& a.proxy.enabled == b.proxy.enabled
    &&& a.proxy.url@ == b.proxy.url@
}

/// Takes over new settings: the triggers are switched at once. Says whether the recognition
/// engine has to be made anew.
pub fn save_config(previous: &AppConfig, config: &AppConfig, listener: &mut InputListener) -> (r:
    bool)
    ensures
        *final(listener) == (InputListener {
            enable_mouse: config.trigger_mouse,
            enable_alt: config.trigger_toggle,
        }),
        r == !same_engine(*previous, *config),
{
    listener.enable_mouse = config.trigger_mouse;
    listener.enable_alt = config.trigger_toggle;
    !storage::asr_config_eq(&previous.asr, &config.asr) || !storage::proxy_config_eq(
        &previous.proxy,
        &config.proxy,
    )
}

/// Adds a safety rule to those in force and to the settings.
pub fn add_safety_rule(in_force: &mut Vec<SafetyRule>, config: &mut AppConfig, rule: SafetyRule)
    ensures
        storage::rule_views(final(in_force)@) == storage::rule_views(old(in_force)@).push(rule@),
        final(config)@ == (storage::AppModel {
            agent_config: storage::AgentModel {
                safety_rules: old(config)@.agent_config.safety_rules.push(rule@),
                ..old(config)@.agent_config
            },
            ..old(config)@
        }),
{
    let ghost before = storage::rule_views(in_force@);
    let ghost kept = config@.agent_config.safety_rules;
    let copy = rule.clone();
    in_force.push(copy);
    assert(storage::rule_views(in_force@) =~= before.push(rule@));
    config.agent_config.safety_rules.push(rule);
    assert(config@.agent_config.safety_rules =~= kept.push(rule@));
}

/// The engine is made anew where another is chosen, where its credentials, its model or its
/// language change, and where the way to the network does.
pub proof fn law_a_change_of_the_engine_counts(a: AppConfig, b: AppConfig)
    ensures
        same_engine(a, a),
        same_engine(a, b) == same_engine(b, a),
        a.asr.provider != b.asr.provider ==> !same_engine(a, b),
        a.asr.volcengine.app_key@ != b.asr.volcengine.app_key@ ==> !same_engine(a, b),
        a.asr.volcengine.access_key@ != b.asr.volcengine.access_key@ ==> !same_engine(a, b),
        a.asr.sensevoice.model_dir@ != b.asr.sensevoice.model_dir@ ==> !same_engine(a, b),
        a.asr.sensevoice.language@ != b.asr.sensevoice.language@ ==> !same_engine(a, b),
        a.asr.zipformer.model_dir@ != b.asr.zipformer.model_dir@ ==> !same_engine(a, b),
        a.proxy.url@ != b.proxy.url@ ==> !same_engine(a, b),
        a.proxy.enabled != b.proxy.enabled ==> !same_engine(a, b),
        a.asr == b.asr && a.proxy == b.proxy ==> same_engine(a, b),
{
}

} // verus!
