//! Settings and message types of the hosted video-generation services, the
//! GPU probe, and the front end's style sheet. The HTTP exchanges themselves
//! are made by the application around this library.
use vstd::prelude::*;
use vstd::string::*;

use crate::chars::str_eq;
use crate::choices::VideoResolution;

verus! {

/// Request body for the Bailian video model.
#[derive(Debug, Clone)]
pub struct AliyunVideoRequest {
    pub model: String,
    pub input: AliyunVideoInput,
    pub parameters: Option<AliyunVideoParameters>,
}

#[derive(Debug, Clone)]
pub struct AliyunVideoInput {
    pub prompt: String,
}

#[derive(Debug, Clone)]
pub struct AliyunVideoParameters {
    /// For example `1920x1080`.
    pub resolution: Option<String>,
    /// Length in seconds.
    pub duration: Option<u32>,
}

#[derive(Debug, Clone)]
pub struct AliyunVideoResponse {
    pub id: String,
    pub status: String,
    pub output: Option<AliyunVideoOutput>,
    pub error: Option<AliyunError>,
}

#[derive(Debug, Clone)]
pub struct AliyunVideoOutput {
    pub video_url: Option<String>,
    pub task_id: Option<String>,
}

#[derive(Debug, Clone)]
pub struct AliyunError {
    pub code: String,
    pub message: String,
}

/// Request body for the Z.AI narration-video endpoint.
#[derive(Debug, Clone)]
pub struct ZaiVideoRequest {
    pub text: String,
    pub voice: String,
    pub style: String,
    pub subtitles: bool,
    pub resolution: String,
    pub prompt: Option<String>,
}

#[derive(Debug, Clone)]
pub struct ZaiVideoResponse {
    pub video_url: String,
    pub status: String,
    pub job_id: Option<String>,
}

#[derive(Debug, Clone)]
pub struct ZaiVideoStatusResponse {
    pub status: String,
    pub video_url: Option<String>,
    pub progress: Option<u8>,
}

pub open spec fn aliyun_endpoint() -> Seq<char> {
    "https://bailian.cn-beijing.aliyuncs.com/api/v1/chat/completions"@
}

pub open spec fn zai_paas_endpoint() -> Seq<char> {
    "https://api.z.ai/api/paas/v4"@
}

pub open spec fn zai_endpoint() -> Seq<char> {
    "https://api.z.ai/v1"@
}

/// Client settings for Alibaba Cloud's Bailian video generation.
pub struct AliyunVideoService {
    pub api_key: String,
    pub base_url: String,
}

impl AliyunVideoService {
    pub fn new(api_key: String) -> (r: AliyunVideoService)
        ensures
            r.api_key == api_key,
            r.base_url@ == aliyun_endpoint(),
    {
        AliyunVideoService {
            api_key,
            base_url: String::from_str("https://bailian.cn-beijing.aliyuncs.com/api/v1/chat/completions"),
        }
    }
}

/// Client settings for Z.AI's CogVideoX generation (PaaS API).
pub struct ZAIVideoService {
    pub api_key: String,
    pub base_url: String,
}

impl ZAIVideoService {
    pub fn new(api_key: String) -> (r: ZAIVideoService)
        ensures
            r.api_key == api_key,
            r.base_url@ == zai_paas_endpoint(),
    {
        ZAIVideoService { api_key, base_url: String::from_str("https://api.z.ai/api/paas/v4") }
    }
}

/// Client settings for Z.AI's narration-video endpoint.
pub struct ZaiVideoService {
    pub api_key: String,
    pub base_url: String,
}

impl ZaiVideoService {
    pub fn new(api_key: String) -> (r: ZaiVideoService)
        ensures
            r.api_key == api_key,
            r.base_url@ == zai_endpoint(),
    {
        ZaiVideoService { api_key, base_url: String::from_str("https://api.z.ai/v1") }
    }
}

/// Client settings for the front end's Z.AI video generation.
pub struct VideoGenerationService {
    pub api_key: String,
    pub base_url: String,
}

impl VideoGenerationService {
    pub fn new(api_key: String) -> (r: VideoGenerationService)
        ensures
            r.api_key == api_key,
            r.base_url@ == zai_endpoint(),
    {
        VideoGenerationService { api_key, base_url: String::from_str("https://api.z.ai/v1") }
    }
}

// ---------------------------------------------------------------- Z.AI video jobs

/// Frame size that the Z.AI video models are asked for at each resolution.
pub open spec fn zai_size(r: VideoResolution) -> Seq<char> {
    match r {
        VideoResolution::P720 => "1280x720"@,
        VideoResolution::P1080 => "1920x1080"@,
        VideoResolution::P4K => "3840x2160"@,
    }
}

pub fn video_size(r: VideoResolution) -> (s: &'static str)
    ensures
        s@ == zai_size(r),
{
    match r {
        VideoResolution::P720 => "1280x720",
        VideoResolution::P1080 => "1920x1080",
        VideoResolution::P4K => "3840x2160",
    }
}

/// The Vidu 2 variant for the number of guide images: one image animates it,
/// two are start and end frames, none or more than two are references.
pub open spec fn zai_model(images: nat) -> Seq<char> {
    if images == 1 {
        "vidu2-image"@
    } else if images == 2 {
        "vidu2-start-end"@
    } else {
        "vidu2-reference"@
    }
}

pub fn video_model(images: usize) -> (s: &'static str)
    ensures
        s@ == zai_model(images as nat),
{
    if images == 1 {
        "vidu2-image"
    } else if images == 2 {
        "vidu2-start-end"
    } else {
        "vidu2-reference"
    }
}

/// State of a video job as the service reports it.
#[derive(Debug, Clone, Copy, PartialEq, Eq, Structural)]
pub enum TaskStatus {
    Processing,
    Success,
    Fail,
    Unknown,
}

/// The status named `s` in a status reply.
pub fn task_status(s: &str) -> (r: TaskStatus)
    ensures
        r == (if s@ == "PROCESSING"@ { TaskStatus::Processing }
        else if s@ == "SUCCESS"@ { TaskStatus::Success }
        else if s@ == "FAIL"@ { TaskStatus::Fail }
        else { TaskStatus::Unknown }),
{
    if str_eq(s, "PROCESSING") {
        TaskStatus::Processing
    } else if str_eq(s, "SUCCESS") {
        TaskStatus::Success
    } else if str_eq(s, "FAIL") {
        TaskStatus::Fail
    } else {
        TaskStatus::Unknown
    }
}

/// Status checks made before a job is given up (one every five seconds).
pub const MAX_POLL_ATTEMPTS: u32 = 120;

/// Why waiting for a video job ended without a video.
#[derive(Debug, Clone, Copy, PartialEq, Eq, Structural)]
pub enum PollFailure {
    /// The job did not finish within the allowed number of checks.
    Timeout,
    /// The job finished but the reply named no video.
    NoUrl,
    /// The service reports that the job failed.
    GenerationFailed,
}

/// What to do after a status check.
#[derive(Debug, Clone, PartialEq, Eq)]
pub enum PollAction {
    /// Check again later; `progress` is the percentage to show, if any.
    Retry { attempts: u32, progress: Option<u8> },
    /// The video is ready at this address.
    Finished(String),
    /// Give up.
    Failed(PollFailure),
}

/// Progress shown while a job is processing: from 30% towards 80% as the
/// checks run out.
pub open spec fn processing_progress(attempts: nat) -> nat {
    30 + attempts * 50 / (MAX_POLL_ATTEMPTS as nat)
}

/// The decision after status check number `attempts` (counted from 0).
/// `reply` is `None` when the check itself failed, else the reported status
/// and the first video address. Once `attempts` reaches the limit the job is
/// given up.
pub fn next_poll(attempts: u32, reply: Option<(TaskStatus, Option<String>)>) -> (r: PollAction)
    ensures
        attempts >= MAX_POLL_ATTEMPTS ==> r == PollAction::Failed(PollFailure::Timeout),
        attempts < MAX_POLL_ATTEMPTS ==> r == (match reply {
            None => PollAction::Retry { attempts: (attempts + 1) as u32, progress: None },
            Some((TaskStatus::Processing, _)) => PollAction::Retry {
                attempts: (attempts + 1) as u32,
                progress: Some(processing_progress(attempts as nat) as u8),
            },
            Some((TaskStatus::Success, Some(url))) => PollAction::Finished(url),
            Some((TaskStatus::Success, None)) => PollAction::Failed(PollFailure::NoUrl),
            Some((TaskStatus::Fail, _)) => PollAction::Failed(PollFailure::GenerationFailed),
            Some((TaskStatus::Unknown, _)) => PollAction::Retry {
                attempts: (attempts + 1) as u32,
                progress: Some(30),
            },
        }),
{
    if attempts >= MAX_POLL_ATTEMPTS {
        return PollAction::Failed(PollFailure::Timeout);
    }
    match reply {
        None => PollAction::Retry { attempts: attempts + 1, progress: None },
        Some((TaskStatus::Processing, _)) => {
            let p: u32 = 30 + attempts * 50 / MAX_POLL_ATTEMPTS;
            PollAction::Retry { attempts: attempts + 1, progress: Some(p as u8) }
        },
        Some((TaskStatus::Success, Some(url))) => PollAction::Finished(url),
        Some((TaskStatus::Success, None)) => PollAction::Failed(PollFailure::NoUrl),
        Some((TaskStatus::Fail, _)) => PollAction::Failed(PollFailure::GenerationFailed),
        Some((TaskStatus::Unknown, _)) => PollAction::Retry { attempts: attempts + 1, progress: Some(30) },
    }
}

/// Whether GPU acceleration is available to the speech backends. This build
/// has no GPU support.
pub fn probe_gpu() -> (r: bool)
    ensures
        !r,
{
    false
}

/// The front end's style sheet.
pub fn get_theme_css() -> &'static str {
    r#"
@import url('https://fonts.googleapis.com/css2?family=Rajdhani:wght@300;400;500;600;700&display=swap');

:root {
  --bg: #070A12;
  --panel-bg: #0A0F1A;
  --text: #D7E1FF;
  --muted: #8BA1C7;
  --neon-cyan: #27E8FF;
  --neon-magenta: #FF3AD4;
  --neon-amber: #FFB300;
  --neon-lime: #39FF14;
  --error: #FF3355;
  --ok: #55FFCC;
  --radius: 14px;
  --glow: 0 0 12px rgba(39,232,255,.45);
}

* {
  box-sizing: border-box;
  margin: 0;
  padding: 0;
}

body {
  font-family: 'Rajdhani', sans-serif;
  background: radial-gradient(1200px 800px at 20% 0%, #0C1222 0%, #05070B 60%), #05070B;
  color: var(--text);
  overflow-x: hidden;
}

.panel {
  background: var(--panel-bg);
  border: 1px solid rgba(255,58,212,.35);
  box-shadow: 0 0 0 1px rgba(255,58,212,.2) inset, 0 0 24px rgba(255,58,212,.25);
  border-radius: var(--radius);
  padding: 20px;
}

.dashed {
  border: 2px dashed var(--neon-magenta);
  border-radius: 18px;
}

.neon-btn {
  text-transform: uppercase;
  letter-spacing: .5px;
  padding: 12px 18px;
  border-radius: 12px;
  border: 1px solid rgba(255,58,212,.6);
  background: linear-gradient(180deg, #1A1022, #0E0B16);
  box-shadow: 0 0 12px rgba(255,58,212,.35), inset 0 0 10px rgba(255,58,212,.2);
  transition: transform .06s ease, box-shadow .2s;
  color: var(--text);
  cursor: pointer;
  font-family: 'Rajdhani', sans-serif;
  font-weight: 600;
  font-size: 14px;
  outline: none;
}

.neon-btn:hover {
  transform: translateY(-1px);
  box-shadow: 0 0 16px rgba(255,58,212,.45), inset 0 0 12px rgba(255,58,212,.25);
}

.neon-btn:active {
  transform: translateY(0);
}

.neon-btn:focus-visible {
  outline: 2px solid var(--neon-magenta);
  outline-offset: 2px;
}

.neon-btn.primary {
  border-color: var(--neon-cyan);
  box-shadow: 0 0 14px rgba(39,232,255,.55), inset 0 0 10px rgba(39,232,255,.25);
}

.neon-btn.primary:hover {
  box-shadow: 0 0 18px rgba(39,232,255,.65), inset 0 0 12px rgba(39,232,255,.3);
}

.neon-btn:disabled {
  opacity: 0.5;
  cursor: not-allowed;
  transform: none;
}

.slider-track {
  height: 4px;
  background: linear-gradient(90deg, #FFB300, #27E8FF);
  border-radius: 999px;
}

.progress {
  height: 22px;
  border-radius: 14px;
  background: rgba(255,255,255,.05);
  border: 1px solid rgba(39,232,255,.25);
  position: relative;
  overflow: hidden;
}

.progress > .bar {
  position: absolute;
  top: 0;
  left: 0;
  height: 100%;
  background: linear-gradient(90deg, #39FF14, #FFB300);
  box-shadow: 0 0 18px rgba(57,255,20,.45);
  transition: width 0.2s ease;
}

.container {
  max-width: 1280px;
  width: 100%;
  margin: 0 auto;
  padding: 20px;
}

@media (max-width: 768px) {
  .container {
    padding: 12px;
  }
  
  .neon-btn {
    padding: 10px 16px;
    font-size: 12px;
  }
}

.log-entry {
  font-family: 'Courier New', monospace;
  font-size: 13px;
  line-height: 1.6;
  padding: 4px 0;
}

.log-entry.info {
  color: var(--neon-cyan);
}

.log-entry.notice {
  color: var(--neon-amber);
}

.log-entry.error {
  color: var(--error);
}

.combo {
  position: relative;
}

.combo-input {
  width: 100%;
  padding: 10px 14px;
  background: rgba(10, 15, 26, 0.8);
  border: 1px solid rgba(255,58,212,.4);
  border-radius: 10px;
  color: var(--text);
  font-family: 'Rajdhani', sans-serif;
  outline: none;
  transition: all 0.2s;
}

.combo-input:focus {
  border-color: var(--neon-magenta);
  box-shadow: 0 0 10px rgba(255,58,212,.3);
}

.checkbox-wrapper {
  display: flex;
  align-items: center;
  gap: 10px;
  cursor: pointer;
}

.checkbox-input {
  width: 20px;
  height: 20px;
  accent-color: var(--neon-cyan);
  cursor: pointer;
}

.select {
  padding: 10px 14px;
  background: rgba(10, 15, 26, 0.8);
  border: 1px solid rgba(255,58,212,.4);
  border-radius: 10px;
  color: var(--text);
  font-family: 'Rajdhani', sans-serif;
  outline: none;
  cursor: pointer;
  transition: all 0.2s;
}

.select:focus {
  border-color: var(--neon-magenta);
  box-shadow: 0 0 10px rgba(255,58,212,.3);
}

/* Teleprompter Styles */
.teleprompter-container {
  position: relative;
  width: 100%;
  height: 400px;
  background: rgba(10, 15, 26, 0.9);
  border: 1px solid rgba(39,232,255,.35);
  border-radius: 14px;
  box-shadow: 0 0 20px rgba(39,232,255,.25);
  overflow: hidden;
  margin: 20px 0;
}

.teleprompter-text {
  position: absolute;
  top: 0;
  left: 0;
  width: 100%;
  padding: 30px;
  color: var(--text);
  font-family: 'Courier New', monospace;
  font-size: 24px;
  line-height: 1.5;
  text-align: center;
  transform: translateY(0px);
  transition: transform 0.1s linear;
}

.current-line-highlight {
  position: absolute;
  top: 50%;
  left: 0;
  width: 100%;
  height: 30px;
  background: rgba(39,232,255,.1);
  border-top: 1px solid rgba(39,232,255,.3);
  border-bottom: 1px solid rgba(39,232,255,.3);
  transform: translateY(-50%);
  pointer-events: none;
}

.teleprompter-controls {
  position: absolute;
  bottom: 20px;
  left: 50%;
  transform: translateX(-50%);
  display: flex;
  gap: 10px;
  z-index: 10;
}

.mirror-indicator {
  position: absolute;
  top: 10px;
  right: 10px;
  background: rgba(39,232,255,.2);
  border: 1px solid rgba(39,232,255,.5);
  border-radius: 8px;
  padding: 4px 8px;
  font-size: 12px;
  color: var(--neon-cyan);
  z-index: 10;
}

.gesture-control-panel {
  background: rgba(10, 15, 26, 0.8);
  border: 1px solid rgba(255,58,212,.35);
  border-radius: 14px;
  padding: 20px;
  margin: 20px 0;
  box-shadow: 0 0 15px rgba(255,58,212,.2);
}

@keyframes pulse {
  0% { opacity: 1; }
  50% { opacity: 0.5; }
  100% { opacity: 1; }
}
"#
}

} // verus!
