//! Recognition engines and their models, as the user interface asks for them.
use vstd::prelude::*;

use crate::state::AsrStatus;
use crate::storage::{AppConfig, AsrConfig, AsrProviderKind};
use crate::{paths, storage};

verus! {

/// Whether speech recognition is set up: the online service has its credentials, or the
/// model of the engine on this machine lies in a directory that is set.
pub open spec fn is_configured(
    asr: AsrConfig,
    sensevoice_present: bool,
    zipformer_present: bool,
) -> bool {
    match asr.provider {
        AsrProviderKind::Volcengine => asr.volcengine.app_key@.len() > 0
            && asr.volcengine.access_key@.len() > 0,
        AsrProviderKind::SenseVoiceOnnx => asr.sensevoice.model_dir@.len() > 0
            && sensevoice_present,
        AsrProviderKind::ZipformerStreaming => asr.zipformer.model_dir@.len() > 0
            && zipformer_present,
    }
}

pub fn get_asr_status(
    config: &AppConfig,
    sensevoice_present: bool,
    zipformer_present: bool,
) -> (r: AsrStatus)
    ensures
        r.configured == is_configured(config.asr, sensevoice_present, zipformer_present),
{
    let configured = match config.asr.provider {
        AsrProviderKind::Volcengine => !config.asr.volcengine.app_key.as_str().is_empty()
            && !config.asr.volcengine.access_key.as_str().is_empty(),
        AsrProviderKind::SenseVoiceOnnx => !config.asr.sensevoice.model_dir.as_str().is_empty()
            && sensevoice_present,
        AsrProviderKind::ZipformerStreaming => !config.asr.zipformer.model_dir.as_str().is_empty()
            && zipformer_present,
    };
    AsrStatus { configured }
}

/// Where the recognition model goes below the directory of the application.
pub open spec fn default_model_dir(app_dir: Seq<char>) -> Seq<char> {
    paths::joined_path(paths::joined_path(app_dir, "models"@), "SenseVoiceSmall-onnx"@)
}

pub fn sensevoice_default_dir(app_dir: &str) -> (r: String)
    ensures
        r@ == default_model_dir(app_dir@),
{
    let models = paths::join(app_dir, "models");
    paths::join(models.as_str(), "SenseVoiceSmall-onnx")
}

/// Where the recognition model is to be fetched to: to the directory that is asked for, or
/// to the default one.
pub fn download_target(asked: Option<String>, app_dir: &str) -> (r: String)
    ensures
        r@ == (match asked {
            Some(d) => if d@.len() > 0 {
                d@
            } else {
                default_model_dir(app_dir@)
            },
            None => default_model_dir(app_dir@),
        }),
{
    match asked {
        Some(d) => if d.as_str().is_empty() {
            sensevoice_default_dir(app_dir)
        } else {
            d
        },
        None => sensevoice_default_dir(app_dir),
    }
}

/// Takes note of where the recognition model was fetched to. Says whether the engine has to
/// be made anew, which it has where it is the one in use.
pub fn model_downloaded(config: &mut AppConfig, dir: String) -> (r: bool)
    ensures
        final(config).asr.sensevoice.model_dir == dir,
        final(config)@ == (storage::AppModel {
            asr: AsrConfig {
                sensevoice: storage::SenseVoiceOnnxConfig {
                    model_dir: dir,
                    ..old(config).asr.sensevoice
                },
                ..old(config).asr
            },
            ..old(config)@
        }),
        r == (old(config).asr.provider == AsrProviderKind::SenseVoiceOnnx),
{
    config.asr.sensevoice.model_dir = dir;
    config.asr.provider == AsrProviderKind::SenseVoiceOnnx
}

/// Takes over another input device.
pub fn switch_input_device(config: &mut AppConfig, device_id: String)
    ensures
        final(config)@ == (storage::AppModel { input_device: device_id@, ..old(config)@ }),
{
    config.input_device = device_id;
}

/// An engine is set up by what it needs itself, whatever else is set.
pub proof fn law_each_engine_needs_its_own_settings(asr: AsrConfig, a: bool, b: bool)
    ensures
        asr.provider is Volcengine ==> (is_configured(asr, a, b) <==> asr.volcengine.app_key@.len()
            > 0 && asr.volcengine.access_key@.len() > 0),
        asr.provider is SenseVoiceOnnx ==> (is_configured(asr, a, b)
            <==> asr.sensevoice.model_dir@.len() > 0 && a),
        asr.provider is ZipformerStreaming ==> (is_configured(asr, a, b)
            <==> asr.zipformer.model_dir@.len() > 0 && b),
{
}

} // verus!
