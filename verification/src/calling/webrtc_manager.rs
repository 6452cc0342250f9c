//! Media devices and the settings of media streams.

use vstd::prelude::*;

use crate::calling::call_manager::TurnServer;

verus! {

/// The settings of WebRTC.
pub struct WebRTCConfig {
    pub stun_servers: Vec<String>,
    pub turn_servers: Vec<TurnServer>,
    pub enable_dtls: bool,
    pub enable_srtp: bool,
}

/// What kind of device a media device is.
#[derive(Clone, Copy, PartialEq, Eq, Debug, Structural)]
pub enum MediaDeviceType {
    AudioInput,
    VideoInput,
    AudioOutput,
}

/// What a device can do.
pub struct DeviceCapabilities {
    pub audio_sample_rates: Vec<u32>,
    pub video_resolutions: Vec<(u32, u32)>,
    pub video_frame_rates: Vec<u32>,
    pub audio_codecs: Vec<String>,
    pub video_codecs: Vec<String>,
}

/// A media device.
pub struct MediaDevice {
    pub id: String,
    pub name: String,
    pub device_type: MediaDeviceType,
    pub is_default: bool,
    pub capabilities: DeviceCapabilities,
}

/// The devices in use.
pub struct CurrentDevices {
    pub audio_input: Option<String>,
    pub video_input: Option<String>,
    pub audio_output: Option<String>,
}

/// A media device as plain values.
pub struct DeviceView {
    pub id: Seq<char>,
    pub name: Seq<char>,
    pub device_type: MediaDeviceType,
    pub is_default: bool,
    pub audio_sample_rates: Seq<u32>,
    pub video_resolutions: Seq<(u32, u32)>,
    pub video_frame_rates: Seq<u32>,
    pub audio_codecs: Seq<Seq<char>>,
    pub video_codecs: Seq<Seq<char>>,
}

/// The texts of `names`, one for one.
pub open spec fn texts(names: Seq<String>) -> Seq<Seq<char>> {
    Seq::new(names.len(), |i: int| names[i]@)
}

impl View for MediaDevice {
    type V = DeviceView;

    open spec fn view(&self) -> DeviceView {
        DeviceView {
            id: self.id@,
            name: self.name@,
            device_type: self.device_type,
            is_default: self.is_default,
            audio_sample_rates: self.capabilities.audio_sample_rates@,
            video_resolutions: self.capabilities.video_resolutions@,
            video_frame_rates: self.capabilities.video_frame_rates@,
            audio_codecs: texts(self.capabilities.audio_codecs@),
            video_codecs: texts(self.capabilities.video_codecs@),
        }
    }
}

/// The devices of `devices` as plain values, one for one.
pub open spec fn device_views(devices: Seq<MediaDevice>) -> Seq<DeviceView> {
    Seq::new(devices.len(), |i: int| devices[i]@)
}

/// The default device for sound of the kind `device_type`.
pub open spec fn default_sound_device(
    id: Seq<char>,
    name: Seq<char>,
    device_type: MediaDeviceType,
) -> DeviceView {
    DeviceView {
        id,
        name,
        device_type,
        is_default: true,
        audio_sample_rates: seq![8000u32, 16000u32, 44100u32, 48000u32],
        video_resolutions: Seq::empty(),
        video_frame_rates: Seq::empty(),
        audio_codecs: seq!["opus"@, "PCMU"@],
        video_codecs: Seq::empty(),
    }
}

/// The default camera.
pub open spec fn default_camera() -> DeviceView {
    DeviceView {
        id: "default_video_input"@,
        name: "Default Camera"@,
        device_type: MediaDeviceType::VideoInput,
        is_default: true,
        audio_sample_rates: Seq::empty(),
        video_resolutions: seq![(640u32, 480u32), (1280u32, 720u32), (1920u32, 1080u32)],
        video_frame_rates: seq![15u32, 30u32, 60u32],
        audio_codecs: Seq::empty(),
        video_codecs: seq!["VP8"@, "VP9"@, "H264"@],
    }
}

/// The default microphone.
pub open spec fn default_microphone() -> DeviceView {
    default_sound_device(
        "default_audio_input"@,
        "Default Microphone"@,
        MediaDeviceType::AudioInput,
    )
}

/// The default speaker.
pub open spec fn default_speaker() -> DeviceView {
    default_sound_device(
        "default_audio_output"@,
        "Default Speaker"@,
        MediaDeviceType::AudioOutput,
    )
}

/// The text of `chosen` where a device is chosen, else `fallback`.
pub open spec fn chosen_or(chosen: Option<String>, fallback: Seq<char>) -> Seq<char> {
    match chosen {
        Some(id) => id@,
        None => fallback,
    }
}

/// Which way a camera faces.
#[derive(Clone, Copy, PartialEq, Eq, Debug, Structural)]
pub enum FacingMode {
    /// Towards the user.
    User,
    /// Away from the user.
    Environment,
}

/// What is asked of captured sound.
#[derive(Clone, Copy, Debug)]
pub struct AudioConstraints {
    pub sample_rate: Option<u32>,
    pub channels: Option<u32>,
    pub echo_cancellation: bool,
    pub noise_suppression: bool,
    pub auto_gain_control: bool,
}

impl Default for AudioConstraints {
    fn default() -> (out: Self)
        ensures
            out.sample_rate == Some(48000u32),
            out.channels == Some(1u32),
            out.echo_cancellation,
            out.noise_suppression,
            out.auto_gain_control,
    {
        AudioConstraints {
            sample_rate: Some(48000),
            channels: Some(1),
            echo_cancellation: true,
            noise_suppression: true,
            auto_gain_control: true,
        }
    }
}

/// What is asked of captured pictures.
#[derive(Clone, Copy, Debug)]
pub struct VideoConstraints {
    pub width: Option<u32>,
    pub height: Option<u32>,
    pub frame_rate: Option<u32>,
    pub facing_mode: Option<FacingMode>,
}

impl Default for VideoConstraints {
    fn default() -> (out: Self)
        ensures
            out.width == Some(1280u32),
            out.height == Some(720u32),
            out.frame_rate == Some(30u32),
            out.facing_mode == Some(FacingMode::User),
    {
        VideoConstraints {
            width: Some(1280),
            height: Some(720),
            frame_rate: Some(30),
            facing_mode: Some(FacingMode::User),
        }
    }
}

/// The settings of a media stream.
#[derive(Clone, Copy, Debug)]
pub struct MediaStreamConfig {
    pub audio_enabled: bool,
    pub video_enabled: bool,
    pub screen_share_enabled: bool,
    pub audio_constraints: AudioConstraints,
    pub video_constraints: VideoConstraints,
}

impl Default for MediaStreamConfig {
    fn default() -> (out: Self)
        ensures
            out.audio_enabled,
            !out.video_enabled,
            !out.screen_share_enabled,
    {
        MediaStreamConfig {
            audio_enabled: true,
            video_enabled: false,
            screen_share_enabled: false,
            audio_constraints: AudioConstraints::default(),
            video_constraints: VideoConstraints::default(),
        }
    }
}

/// The settings of an RTP codec.
pub struct CodecConfig {
    pub name: String,
    pub payload_type: u8,
    pub clock_rate: u32,
    pub channels: Option<u32>,
    pub parameters: Vec<(String, String)>,
}

/// An RTP codec as plain values.
pub struct CodecView {
    pub name: Seq<char>,
    pub payload_type: u8,
    pub clock_rate: u32,
    pub channels: Option<u32>,
    pub parameters: Seq<(Seq<char>, Seq<char>)>,
}

impl View for CodecConfig {
    type V = CodecView;

    open spec fn view(&self) -> CodecView {
        CodecView {
            name: self.name@,
            payload_type: self.payload_type,
            clock_rate: self.clock_rate,
            channels: self.channels,
            parameters: Seq::new(
                self.parameters@.len(),
                |i: int| (self.parameters@[i].0@, self.parameters@[i].1@),
            ),
        }
    }
}

/// A codec without parameters.
pub open spec fn plain_codec(
    name: Seq<char>,
    payload_type: u8,
    clock_rate: u32,
    channels: Option<u32>,
) -> CodecView {
    CodecView { name, payload_type, clock_rate, channels, parameters: Seq::empty() }
}

/// The codecs that are supported: three for sound, then three for pictures.
pub open spec fn supported_codecs() -> Seq<CodecView> {
    seq![
        plain_codec("opus"@, 111, 48000, Some(2u32)),
        plain_codec("PCMU"@, 0, 8000, Some(1u32)),
        plain_codec("PCMA"@, 8, 8000, Some(1u32)),
        plain_codec("VP8"@, 96, 90000, None),
        plain_codec("VP9"@, 98, 90000, None),
        CodecView {
            name: "H264"@,
            payload_type: 102,
            clock_rate: 90000,
            channels: None,
            parameters: seq![("profile-level-id"@, "42e01f"@)],
        },
    ]
}

/// The codecs of `codecs` as plain values, one for one.
pub open spec fn codec_views(codecs: Seq<CodecConfig>) -> Seq<CodecView> {
    Seq::new(codecs.len(), |i: int| codecs[i]@)
}

fn plain_codec_config(name: &str, payload_type: u8, clock_rate: u32, channels: Option<u32>) -> (out:
    CodecConfig)
    ensures
        out@ == plain_codec(name@, payload_type, clock_rate, channels),
{
    let out = CodecConfig {
        name: name.to_string(),
        payload_type,
        clock_rate,
        channels,
        parameters: Vec::new(),
    };
    assert(out@.parameters =~= Seq::empty());
    out
}

/// The codecs that are supported.
pub fn get_supported_codecs() -> (out: Vec<CodecConfig>)
    ensures
        codec_views(out@) == supported_codecs(),
{
    let mut out: Vec<CodecConfig> = Vec::new();
    out.push(plain_codec_config("opus", 111, 48000, Some(2)));
    out.push(plain_codec_config("PCMU", 0, 8000, Some(1)));
    out.push(plain_codec_config("PCMA", 8, 8000, Some(1)));
    out.push(plain_codec_config("VP8", 96, 90000, None));
    out.push(plain_codec_config("VP9", 98, 90000, None));
    let mut parameters: Vec<(String, String)> = Vec::new();
    parameters.push(("profile-level-id".to_string(), "42e01f".to_string()));
    let h264 = CodecConfig {
        name: "H264".to_string(),
        payload_type: 102,
        clock_rate: 90000,
        channels: None,
        parameters,
    };
    assert(h264@.parameters =~= seq![("profile-level-id"@, "42e01f"@)]);
    out.push(h264);
    assert(codec_views(out@) =~= supported_codecs());
    out
}

fn copy_texts(names: &Vec<String>) -> (out: Vec<String>)
    ensures
        texts(out@) == texts(names@),
{
    let mut out: Vec<String> = Vec::new();
    let mut i: usize = 0;
    while i < names.len()
        invariant
            i <= names@.len(),
            out@.len() == i,
            forall|j: int| 0 <= j < i ==> (#[trigger] out@[j])@ == names@[j]@,
        decreases names@.len() - i,
    {
        out.push(names[i].clone());
        i += 1;
    }
    assert(texts(out@) =~= texts(names@));
    out
}

fn copy_pairs(pairs: &Vec<(u32, u32)>) -> (out: Vec<(u32, u32)>)
    ensures
        out@ == pairs@,
{
    let mut out: Vec<(u32, u32)> = Vec::new();
    let mut i: usize = 0;
    while i < pairs.len()
        invariant
            i <= pairs@.len(),
            out@ == pairs@.subrange(0, i as int),
        decreases pairs@.len() - i,
    {
        let pair = pairs[i];
        out.push(pair);
        assert(out@ =~= pairs@.subrange(0, i + 1));
        i += 1;
    }
    assert(out@ =~= pairs@);
    out
}

fn copy_device(device: &MediaDevice) -> (out: MediaDevice)
    ensures
        out@ == device@,
{
    let out = MediaDevice {
        id: device.id.clone(),
        name: device.name.clone(),
        device_type: device.device_type,
        is_default: device.is_default,
        capabilities: DeviceCapabilities {
            audio_sample_rates: device.capabilities.audio_sample_rates.clone(),
            video_resolutions: copy_pairs(&device.capabilities.video_resolutions),
            video_frame_rates: device.capabilities.video_frame_rates.clone(),
            audio_codecs: copy_texts(&device.capabilities.audio_codecs),
            video_codecs: copy_texts(&device.capabilities.video_codecs),
        },
    };
    assert(out@.audio_sample_rates =~= device@.audio_sample_rates);
    assert(out@.video_resolutions =~= device@.video_resolutions);
    assert(out@.video_frame_rates =~= device@.video_frame_rates);
    out
}

fn append_devices(out: &mut Vec<MediaDevice>, devices: &Vec<MediaDevice>)
    ensures
        device_views(final(out)@) == device_views(old(out)@) + device_views(devices@),
{
    let mut i: usize = 0;
    while i < devices.len()
        invariant
            i <= devices@.len(),
            out@.len() == old(out)@.len() + i,
            forall|j: int| 0 <= j < old(out)@.len() ==> (#[trigger] out@[j])@ == old(out)@[j]@,
            forall|j: int|
                old(out)@.len() <= j < out@.len() ==> (#[trigger] out@[j])@ == devices@[j - old(
                    out,
                )@.len()]@,
        decreases devices@.len() - i,
    {
        out.push(copy_device(&devices[i]));
        i += 1;
    }
    assert(device_views(out@) =~= device_views(old(out)@) + device_views(devices@));
}

fn sound_device(id: &str, name: &str, device_type: MediaDeviceType) -> (out: MediaDevice)
    ensures
        out@ == default_sound_device(id@, name@, device_type),
{
    let mut audio_sample_rates: Vec<u32> = Vec::new();
    audio_sample_rates.push(8000);
    audio_sample_rates.push(16000);
    audio_sample_rates.push(44100);
    audio_sample_rates.push(48000);
    let mut audio_codecs: Vec<String> = Vec::new();
    audio_codecs.push("opus".to_string());
    audio_codecs.push("PCMU".to_string());
    let out = MediaDevice {
        id: id.to_string(),
        name: name.to_string(),
        device_type,
        is_default: true,
        capabilities: DeviceCapabilities {
            audio_sample_rates,
            video_resolutions: Vec::new(),
            video_frame_rates: Vec::new(),
            audio_codecs,
            video_codecs: Vec::new(),
        },
    };
    assert(out@.audio_sample_rates =~= seq![8000u32, 16000u32, 44100u32, 48000u32]);
    assert(out@.audio_codecs =~= seq!["opus"@, "PCMU"@]);
    assert(out@.video_codecs =~= Seq::empty());
    out
}

fn camera() -> (out: MediaDevice)
    ensures
        out@ == default_camera(),
{
    let mut video_resolutions: Vec<(u32, u32)> = Vec::new();
    video_resolutions.push((640, 480));
    video_resolutions.push((1280, 720));
    video_resolutions.push((1920, 1080));
    let mut video_frame_rates: Vec<u32> = Vec::new();
    video_frame_rates.push(15);
    video_frame_rates.push(30);
    video_frame_rates.push(60);
    let mut video_codecs: Vec<String> = Vec::new();
    video_codecs.push("VP8".to_string());
    video_codecs.push("VP9".to_string());
    video_codecs.push("H264".to_string());
    let out = MediaDevice {
        id: "default_video_input".to_string(),
        name: "Default Camera".to_string(),
        device_type: MediaDeviceType::VideoInput,
        is_default: true,
        capabilities: DeviceCapabilities {
            audio_sample_rates: Vec::new(),
            video_resolutions,
            video_frame_rates,
            audio_codecs: Vec::new(),
            video_codecs,
        },
    };
    assert(out@.video_resolutions =~= seq![(640u32, 480u32), (1280u32, 720u32), (1920u32, 1080u32)]);
    assert(out@.video_frame_rates =~= seq![15u32, 30u32, 60u32]);
    assert(out@.video_codecs =~= seq!["VP8"@, "VP9"@, "H264"@]);
    assert(out@.audio_codecs =~= Seq::empty());
    out
}

fn chosen_or_default(chosen: Option<String>, fallback: &str) -> (out: Option<String>)
    ensures
        out matches Some(id) && id@ == chosen_or(chosen, fallback@),
{
    match chosen {
        Some(id) => Some(id),
        None => Some(fallback.to_string()),
    }
}

/// The media devices at hand and those in use.
pub struct MediaDevicesManager {
    audio_inputs: Vec<MediaDevice>,
    video_inputs: Vec<MediaDevice>,
    audio_outputs: Vec<MediaDevice>,
    current_devices: CurrentDevices,
}

/// Why a choice of devices was refused.
#[derive(Clone, Copy, PartialEq, Eq, Debug, Structural)]
pub enum DeviceError {
    InvalidAudioInput,
    InvalidVideoInput,
    InvalidAudioOutput,
}

/// Whether one of the devices has the identifier `id`.
pub open spec fn has_device(devices: Seq<MediaDevice>, id: Seq<char>) -> bool {
    exists|i: int| 0 <= i < devices.len() && (#[trigger] devices[i]).id@ == id
}

/// Whether each device that `devices` names is among those of `manager`.
pub open spec fn chosen_devices_exist(manager: MediaDevicesManager, devices: CurrentDevices) -> bool {
    &&& devices.audio_input matches Some(id) ==> has_device(manager.audio_inputs(), id@)
    &&& devices.video_input matches Some(id) ==> has_device(manager.video_inputs(), id@)
    &&& devices.audio_output matches Some(id) ==> has_device(manager.audio_outputs(), id@)
}

fn find_device(devices: &Vec<MediaDevice>, id: &String) -> (out: bool)
    ensures
        out == has_device(devices@, id@),
{
    let mut i: usize = 0;
    while i < devices.len()
        invariant
            i <= devices@.len(),
            forall|j: int| 0 <= j < i ==> (#[trigger] devices@[j]).id@ != id@,
        decreases devices@.len() - i,
    {
        if devices[i].id == *id {
            return true;
        }
        i += 1;
    }
    false
}

impl MediaDevicesManager {
    /// The devices for sound input.
    pub closed spec fn audio_inputs(&self) -> Seq<MediaDevice> {
        self.audio_inputs@
    }

    /// The devices for picture input.
    pub closed spec fn video_inputs(&self) -> Seq<MediaDevice> {
        self.video_inputs@
    }

    /// The devices for sound output.
    pub closed spec fn audio_outputs(&self) -> Seq<MediaDevice> {
        self.audio_outputs@
    }

    /// The devices in use.
    pub closed spec fn current(&self) -> CurrentDevices {
        self.current_devices
    }

    /// A manager of the devices handed in, with none in use.
    pub fn with_devices(
        audio_inputs: Vec<MediaDevice>,
        video_inputs: Vec<MediaDevice>,
        audio_outputs: Vec<MediaDevice>,
    ) -> (out: Self)
        ensures
            out.audio_inputs() == audio_inputs@,
            out.video_inputs() == video_inputs@,
            out.audio_outputs() == audio_outputs@,
            out.current().audio_input is None,
            out.current().video_input is None,
            out.current().audio_output is None,
    {
        MediaDevicesManager {
            audio_inputs,
            video_inputs,
            audio_outputs,
            current_devices: CurrentDevices {
                audio_input: None,
                video_input: None,
                audio_output: None,
            },
        }
    }

    /// A manager of the default devices, with each of them in use.
    pub fn new() -> (out: Self)
        ensures
            device_views(out.audio_inputs()) == seq![default_microphone()],
            device_views(out.video_inputs()) == seq![default_camera()],
            device_views(out.audio_outputs()) == seq![default_speaker()],
            out.current().audio_input matches Some(id) && id@ == "default_audio_input"@,
            out.current().video_input matches Some(id) && id@ == "default_video_input"@,
            out.current().audio_output matches Some(id) && id@ == "default_audio_output"@,
    {
        let mut manager = MediaDevicesManager::with_devices(Vec::new(), Vec::new(), Vec::new());
        manager.refresh_devices();
        manager
    }

    /// Looks for the devices at hand again: afterwards they are the default
    /// microphone, camera and speaker. A device in use stays in use; where
    /// none of a kind was in use, the default one of that kind now is.
    pub fn refresh_devices(&mut self)
        ensures
            device_views(final(self).audio_inputs()) == seq![default_microphone()],
            device_views(final(self).video_inputs()) == seq![default_camera()],
            device_views(final(self).audio_outputs()) == seq![default_speaker()],
            final(self).current().audio_input matches Some(id) && id@ == chosen_or(
                old(self).current().audio_input,
                "default_audio_input"@,
            ),
            final(self).current().video_input matches Some(id) && id@ == chosen_or(
                old(self).current().video_input,
                "default_video_input"@,
            ),
            final(self).current().audio_output matches Some(id) && id@ == chosen_or(
                old(self).current().audio_output,
                "default_audio_output"@,
            ),
    {
        let mut audio_inputs: Vec<MediaDevice> = Vec::new();
        audio_inputs.push(
            sound_device("default_audio_input", "Default Microphone", MediaDeviceType::AudioInput),
        );
        let mut video_inputs: Vec<MediaDevice> = Vec::new();
        video_inputs.push(camera());
        let mut audio_outputs: Vec<MediaDevice> = Vec::new();
        audio_outputs.push(
            sound_device("default_audio_output", "Default Speaker", MediaDeviceType::AudioOutput),
        );
        assert(device_views(audio_inputs@) =~= seq![default_microphone()]);
        assert(device_views(video_inputs@) =~= seq![default_camera()]);
        assert(device_views(audio_outputs@) =~= seq![default_speaker()]);
        self.audio_inputs = audio_inputs;
        self.video_inputs = video_inputs;
        self.audio_outputs = audio_outputs;
        let audio_input = chosen_or_default(self.current_devices.audio_input.take(), "default_audio_input");
        let video_input = chosen_or_default(self.current_devices.video_input.take(), "default_video_input");
        let audio_output = chosen_or_default(
            self.current_devices.audio_output.take(),
            "default_audio_output",
        );
        self.current_devices = CurrentDevices { audio_input, video_input, audio_output };
    }

    /// Every device at hand: those for sound input, then those for picture
    /// input, then those for sound output.
    pub fn get_devices(&self) -> (out: Vec<MediaDevice>)
        ensures
            device_views(out@) == device_views(self.audio_inputs()) + device_views(
                self.video_inputs(),
            ) + device_views(self.audio_outputs()),
    {
        let mut out: Vec<MediaDevice> = Vec::new();
        append_devices(&mut out, &self.audio_inputs);
        append_devices(&mut out, &self.video_inputs);
        append_devices(&mut out, &self.audio_outputs);
        assert(device_views(Seq::<MediaDevice>::empty()) + device_views(self.audio_inputs())
            =~= device_views(self.audio_inputs()));
        out
    }

    /// The devices at hand of the kind `device_type`.
    pub fn get_devices_by_type(&self, device_type: MediaDeviceType) -> (out: Vec<MediaDevice>)
        ensures
            device_views(out@) == device_views(
                match device_type {
                    MediaDeviceType::AudioInput => self.audio_inputs(),
                    MediaDeviceType::VideoInput => self.video_inputs(),
                    MediaDeviceType::AudioOutput => self.audio_outputs(),
                },
            ),
    {
        let mut out: Vec<MediaDevice> = Vec::new();
        match device_type {
            MediaDeviceType::AudioInput => append_devices(&mut out, &self.audio_inputs),
            MediaDeviceType::VideoInput => append_devices(&mut out, &self.video_inputs),
            MediaDeviceType::AudioOutput => append_devices(&mut out, &self.audio_outputs),
        }
        assert(device_views(out@) =~= device_views(Seq::<MediaDevice>::empty()) + device_views(out@));
        out
    }

    /// The devices in use.
    pub fn get_current_devices(&self) -> (out: &CurrentDevices)
        ensures
            *out == self.current(),
    {
        &self.current_devices
    }

    /// Puts devices to use. Refused where a device that is named is not
    /// among the devices at hand; then the devices in use stay.
    pub fn set_current_devices(&mut self, devices: CurrentDevices) -> (out: Result<(), DeviceError>)
        ensures
            final(self).audio_inputs() == old(self).audio_inputs(),
            final(self).video_inputs() == old(self).video_inputs(),
            final(self).audio_outputs() == old(self).audio_outputs(),
            out == if devices.audio_input matches Some(id) && !has_device(
                old(self).audio_inputs(),
                id@,
            ) {
                Err::<(), DeviceError>(DeviceError::InvalidAudioInput)
            } else if devices.video_input matches Some(id) && !has_device(
                old(self).video_inputs(),
                id@,
            ) {
                Err::<(), DeviceError>(DeviceError::InvalidVideoInput)
            } else if devices.audio_output matches Some(id) && !has_device(
                old(self).audio_outputs(),
                id@,
            ) {
                Err::<(), DeviceError>(DeviceError::InvalidAudioOutput)
            } else {
                Ok::<(), DeviceError>(())
            },
            out is Ok ==> final(self).current() == devices,
            out is Err ==> final(self).current() == old(self).current(),
    {
        match &devices.audio_input {
            Some(id) => {
                if !find_device(&self.audio_inputs, id) {
                    return Err(DeviceError::InvalidAudioInput);
                }
            },
            None => {},
        }
        match &devices.video_input {
            Some(id) => {
                if !find_device(&self.video_inputs, id) {
                    return Err(DeviceError::InvalidVideoInput);
                }
            },
            None => {},
        }
        match &devices.audio_output {
            Some(id) => {
                if !find_device(&self.audio_outputs, id) {
                    return Err(DeviceError::InvalidAudioOutput);
                }
            },
            None => {},
        }
        self.current_devices = devices;
        Ok(())
    }
}

/// The media side of calling: the settings, the devices and the codecs.
pub struct WebRTCManager {
    config: WebRTCConfig,
    media_devices: MediaDevicesManager,
}

impl WebRTCManager {
    /// The settings.
    pub closed spec fn config(&self) -> WebRTCConfig {
        self.config
    }

    /// The devices.
    pub closed spec fn devices(&self) -> MediaDevicesManager {
        self.media_devices
    }

    /// A manager with the settings `config` and the default devices, each
    /// of them in use.
    pub fn new(config: WebRTCConfig) -> (out: Self)
        ensures
            out.config() == config,
            device_views(out.devices().audio_inputs()) == seq![default_microphone()],
            device_views(out.devices().video_inputs()) == seq![default_camera()],
            device_views(out.devices().audio_outputs()) == seq![default_speaker()],
            out.devices().current().audio_input matches Some(id) && id@ == "default_audio_input"@,
            out.devices().current().video_input matches Some(id) && id@ == "default_video_input"@,
            out.devices().current().audio_output matches Some(id) && id@
                == "default_audio_output"@,
    {
        WebRTCManager { config, media_devices: MediaDevicesManager::new() }
    }

    /// Every device at hand, as the devices' manager gives them.
    pub fn get_media_devices(&self) -> (out: Vec<MediaDevice>)
        ensures
            device_views(out@) == device_views(self.devices().audio_inputs()) + device_views(
                self.devices().video_inputs(),
            ) + device_views(self.devices().audio_outputs()),
    {
        self.media_devices.get_devices()
    }

    /// Puts devices to use, as the devices' manager does.
    pub fn set_media_devices(&mut self, devices: CurrentDevices) -> (out: Result<(), DeviceError>)
        ensures
            final(self).config() == old(self).config(),
            final(self).devices().audio_inputs() == old(self).devices().audio_inputs(),
            final(self).devices().video_inputs() == old(self).devices().video_inputs(),
            final(self).devices().audio_outputs() == old(self).devices().audio_outputs(),
            out is Ok <==> chosen_devices_exist(old(self).devices(), devices),
            out is Ok ==> final(self).devices().current() == devices,
            out is Err ==> final(self).devices().current() == old(self).devices().current(),
    {
        self.media_devices.set_current_devices(devices)
    }

    /// The codecs that are supported.
    pub fn get_supported_codecs(&self) -> (out: Vec<CodecConfig>)
        ensures
            codec_views(out@) == supported_codecs(),
    {
        get_supported_codecs()
    }
}

} // verus!
