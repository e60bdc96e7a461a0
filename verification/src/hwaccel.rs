//! Which decoder and which pixel format serve a stream on a hardware device.
use crate::text::{copy_of, joined};
use vstd::prelude::*;
#[allow(unused_imports)]
use crate::decode::text_view;

verus! {

/// A kind of device that decodes video.
#[derive(Debug, Clone, Copy, PartialEq, Eq, Structural)]
pub enum HardwareDevice {
    Vulkan,
    Vaapi,
}

impl HardwareDevice {
    /// The name of what the device produces.
    pub open spec fn producer_text(self) -> Seq<char> {
        match self {
            HardwareDevice::Vulkan => "vulkan-hardware"@,
            HardwareDevice::Vaapi => "vaapi-upload"@,
        }
    }

    /// The name of the device.
    pub open spec fn device_text(self) -> Seq<char> {
        match self {
            HardwareDevice::Vulkan => "vulkan"@,
            HardwareDevice::Vaapi => "vaapi"@,
        }
    }

    /// The name of what the device produces.
    pub fn producer_label(&self) -> (label: &'static str)
        ensures
            label@ == self.producer_text(),
    {
        match self {
            HardwareDevice::Vulkan => "vulkan-hardware",
            HardwareDevice::Vaapi => "vaapi-upload",
        }
    }

    /// The name of the device.
    pub fn device_label(&self) -> (label: &'static str)
        ensures
            label@ == self.device_text(),
    {
        match self {
            HardwareDevice::Vulkan => "vulkan",
            HardwareDevice::Vaapi => "vaapi",
        }
    }
}

/// A device as it is asked for, with the number of its kind and the bits of the two ways in which
/// a decoder can use it.
#[derive(Debug, Clone, Copy, PartialEq, Eq, Structural)]
pub struct DeviceQuery {
    pub device: HardwareDevice,
    pub device_type: i32,
    /// The bit of decoders that take a device.
    pub device_method: i32,
    /// The bit of decoders that take a pool of frames.
    pub frames_method: i32,
}

/// One way in which a decoder can use hardware.
#[derive(Debug)]
pub struct HardwareConfig {
    pub device_type: i32,
    pub pix_fmt: i32,
    pub pix_fmt_name: Option<String>,
    pub methods: i32,
}

/// A decoder.
#[derive(Debug)]
pub struct CodecCandidate {
    pub name: String,
    pub is_decoder: bool,
    pub is_video: bool,
    pub id: i32,
    pub configs: Vec<HardwareConfig>,
}

/// How a decoder uses a device.
#[derive(Debug)]
pub struct HardwareProbeResult {
    pub codec_name: String,
    pub hw_pix_fmt: Option<i32>,
    pub hw_pix_fmt_name: Option<String>,
    pub device_method: bool,
    pub frames_method: bool,
}

/// What a [`HardwareProbeResult`] holds.
#[verifier::ext_equal]
pub struct ProbeView {
    pub codec_name: Seq<char>,
    pub hw_pix_fmt: Option<i32>,
    pub hw_pix_fmt_name: Option<Seq<char>>,
    pub device_method: bool,
    pub frames_method: bool,
}

impl View for HardwareProbeResult {
    type V = ProbeView;

    open spec fn view(&self) -> ProbeView {
        ProbeView {
            codec_name: self.codec_name@,
            hw_pix_fmt: self.hw_pix_fmt,
            hw_pix_fmt_name: text_view(self.hw_pix_fmt_name),
            device_method: self.device_method,
            frames_method: self.frames_method,
        }
    }
}

/// Whether some of `configs` uses a device of the kind `device_type` in the way of `method`.
pub open spec fn some_config_has(
    configs: Seq<HardwareConfig>,
    device_type: i32,
    method: i32,
) -> bool {
    exists|i: int|
        0 <= i < configs.len() && (#[trigger] configs[i]).device_type == device_type && (
        configs[i].methods & method) != 0
}

/// The last of `configs` that uses a device of the kind `device_type`.
pub open spec fn last_config(configs: Seq<HardwareConfig>, device_type: i32) -> Option<
    HardwareConfig,
>
    decreases configs.len(),
{
    if configs.len() == 0 {
        None
    } else if configs.last().device_type == device_type {
        Some(configs.last())
    } else {
        last_config(configs.drop_last(), device_type)
    }
}

/// How `codec` uses the device that is asked for, or why it does not.
pub open spec fn probed(codec: CodecCandidate, query: DeviceQuery) -> Result<ProbeView, Seq<char>> {
    let configs = codec.configs@;
    let device_method = some_config_has(configs, query.device_type, query.device_method);
    let frames_method = some_config_has(configs, query.device_type, query.frames_method);
    if !device_method && !frames_method {
        Err(
            "codec `"@ + codec.name@ + "` exposes no "@ + query.device.device_text()
                + " hardware configuration"@,
        )
    } else {
        Ok(
            ProbeView {
                codec_name: codec.name@,
                hw_pix_fmt: match last_config(configs, query.device_type) {
                    Some(config) => Some(config.pix_fmt),
                    None => None,
                },
                hw_pix_fmt_name: match last_config(configs, query.device_type) {
                    Some(config) => text_view(config.pix_fmt_name),
                    None => None,
                },
                device_method,
                frames_method,
            },
        )
    }
}

/// The outcome of a probe.
pub open spec fn probe_view(outcome: Result<HardwareProbeResult, String>) -> Result<
    ProbeView,
    Seq<char>,
> {
    match outcome {
        Ok(probe) => Ok(probe@),
        Err(reason) => Err(reason@),
    }
}

/// How `codec` uses the device that is asked for, or why it does not.
pub fn codec_supports_hwdevice(codec: &CodecCandidate, query: DeviceQuery) -> (outcome: Result<
    HardwareProbeResult,
    String,
>)
    ensures
        probe_view(outcome) == probed(*codec, query),
{
    let ghost configs = codec.configs@;
    let mut hw_pix_fmt: Option<i32> = None;
    let mut hw_pix_fmt_name: Option<String> = None;
    let mut device_method: bool = false;
    let mut frames_method: bool = false;
    let mut index: usize = 0;
    while index < codec.configs.len()
        invariant
            index <= codec.configs.len(),
            configs == codec.configs@,
            hw_pix_fmt == (match last_config(configs.take(index as int), query.device_type) {
                Some(config) => Some(config.pix_fmt),
                None => None,
            }),
            text_view(hw_pix_fmt_name) == (match last_config(
                configs.take(index as int),
                query.device_type,
            ) {
                Some(config) => text_view(config.pix_fmt_name),
                None => None,
            }),
            device_method == some_config_has(
                configs.take(index as int),
                query.device_type,
                query.device_method,
            ),
            frames_method == some_config_has(
                configs.take(index as int),
                query.device_type,
                query.frames_method,
            ),
        decreases codec.configs.len() - index,
    {
        let config: &HardwareConfig = &codec.configs[index];
        let ghost before = configs.take(index as int);
        let ghost upto = configs.take(index + 1);
        proof {
            assert(upto.drop_last() =~= before);
            assert(upto.last() == *config);
            lemma_some_config_push(before, *config, query.device_type, query.device_method);
            lemma_some_config_push(before, *config, query.device_type, query.frames_method);
            assert(upto =~= before.push(*config));
        }
        if config.device_type == query.device_type {
            hw_pix_fmt = Some(config.pix_fmt);
            hw_pix_fmt_name = copy_of(&config.pix_fmt_name);
            let methods: i32 = config.methods;
            device_method = device_method || (methods & query.device_method) != 0;
            frames_method = frames_method || (methods & query.frames_method) != 0;
        }
        index = index + 1;
    }
    assert(configs.take(index as int) =~= configs);
    if !device_method && !frames_method {
        let mut reason: String = joined("codec `", codec.name.as_str());
        reason.append("` exposes no ");
        reason.append(query.device.device_label());
        reason.append(" hardware configuration");
        return Err(reason);
    }
    Ok(
        HardwareProbeResult {
            codec_name: codec.name.clone(),
            hw_pix_fmt,
            hw_pix_fmt_name,
            device_method,
            frames_method,
        },
    )
}

proof fn lemma_some_config_push(
    configs: Seq<HardwareConfig>,
    config: HardwareConfig,
    device_type: i32,
    method: i32,
)
    ensures
        some_config_has(configs.push(config), device_type, method) == (some_config_has(
            configs,
            device_type,
            method,
        ) || (config.device_type == device_type && (config.methods & method) != 0)),
{
    let longer = configs.push(config);
    if some_config_has(configs, device_type, method) {
        let i = choose|i: int|
            0 <= i < configs.len() && (#[trigger] configs[i]).device_type == device_type && (
            configs[i].methods & method) != 0;
        assert(longer[i] == configs[i]);
    }
    if config.device_type == device_type && (config.methods & method) != 0 {
        assert(longer[configs.len() as int] == config);
    }
    if some_config_has(longer, device_type, method) {
        let i = choose|i: int|
            0 <= i < longer.len() && (#[trigger] longer[i]).device_type == device_type && (
            longer[i].methods & method) != 0;
        if i < configs.len() {
            assert(configs[i] == longer[i]);
        }
    }
}

/// A decoder that uses a device at all has a pixel format for it.
pub proof fn probed_codec_has_format(codec: CodecCandidate, query: DeviceQuery)
    ensures
        probed(codec, query) matches Ok(probe) ==> probe.hw_pix_fmt is Some && (probe.device_method
            || probe.frames_method),
{
    if probed(codec, query) is Ok {
        lemma_last_config(codec.configs@, query.device_type);
    }
}

proof fn lemma_last_config(configs: Seq<HardwareConfig>, device_type: i32)
    ensures
        last_config(configs, device_type) is None <==> forall|i: int|
            0 <= i < configs.len() ==> (#[trigger] configs[i]).device_type != device_type,
    decreases configs.len(),
{
    if configs.len() > 0 {
        let shorter = configs.drop_last();
        lemma_last_config(shorter, device_type);
        if configs.last().device_type == device_type {
            assert(configs[configs.len() - 1].device_type == device_type);
        } else {
            if last_config(shorter, device_type) is None {
                assert forall|i: int| 0 <= i < configs.len() implies (
                #[trigger] configs[i]).device_type != device_type by {
                    if i < shorter.len() {
                        assert(shorter[i] == configs[i]);
                    }
                }
            } else {
                let i = choose|i: int|
                    0 <= i < shorter.len() && (#[trigger] shorter[i]).device_type == device_type;
                assert(configs[i].device_type == device_type);
            }
        }
    }
}

impl HardwareProbeResult {
    /// Whether a pool of frames has to be set up by hand: the decoder takes frames and no device.
    pub fn requires_frames_ctx(&self) -> (required: bool)
        ensures
            required == (self.frames_method && !self.device_method),
    {
        self.frames_method && !self.device_method
    }

    /// Why nothing can be decoded, where the decoder has no pixel format for the device.
    pub fn missing_format(&self, device: HardwareDevice) -> (reason: Option<String>)
        ensures
            match reason {
                Some(reason) => self.hw_pix_fmt is None && reason@ == "codec `"@ + self.codec_name@
                    + "` has no "@ + device.device_text() + " hw pixel format"@,
                None => self.hw_pix_fmt is Some,
            },
    {
        if self.hw_pix_fmt.is_some() {
            return None;
        }
        let mut reason: String = joined("codec `", self.codec_name.as_str());
        reason.append("` has no ");
        reason.append(device.device_label());
        reason.append(" hw pixel format");
        Some(reason)
    }
}

/// Whether `codec` decodes video of the kind `codec_id`.
pub open spec fn decodes(codec: CodecCandidate, codec_id: i32) -> bool {
    codec.is_decoder && codec.is_video && codec.id == codec_id
}

/// Whether `number` is among `numbers`.
fn contains_number(numbers: &Vec<i32>, number: i32) -> (contains: bool)
    ensures
        contains == numbers@.contains(number),
{
    let mut i: usize = 0;
    while i < numbers.len()
        invariant
            i <= numbers.len(),
            forall|j: int| 0 <= j < i ==> numbers@[j] != number,
        decreases numbers.len() - i,
    {
        if numbers[i] == number {
            assert(numbers@[i as int] == number);
            return true;
        }
        i = i + 1;
    }
    false
}

/// Whether a kind of device is among those that are there.
pub fn has_hwdevice_support(available: &Vec<i32>, device_type: i32) -> (supported: bool)
    ensures
        supported == available@.contains(device_type),
{
    contains_number(available, device_type)
}

/// Why no device of the kind that is asked for can be used, where it is not among those that are
/// there.
pub fn missing_hwdevice(available: &Vec<i32>, query: DeviceQuery) -> (reason: Option<String>)
    ensures
        match reason {
            Some(reason) => !available@.contains(query.device_type) && reason@
                == "FFmpeg was built without "@ + query.device.device_text()
                + " hwdevice support"@,
            None => available@.contains(query.device_type),
        },
{
    if has_hwdevice_support(available, query.device_type) {
        return None;
    }
    let mut reason: String = joined("FFmpeg was built without ", query.device.device_label());
    reason.append(" hwdevice support");
    Some(reason)
}

/// The first of `codecs` that decodes video of the kind `codec_id` on the device that is asked
/// for. Where none does, the reason is that of the first one that decodes such video at all.
pub fn find_hwdevice_decoder(
    codecs: &Vec<CodecCandidate>,
    codec_id: i32,
    codec_id_name: &str,
    query: DeviceQuery,
) -> (found: Result<(usize, HardwareProbeResult), String>)
    ensures
        match found {
            Ok((at, probe)) => {
                &&& at < codecs@.len()
                &&& decodes(codecs@[at as int], codec_id)
                &&& probed(codecs@[at as int], query) == Ok::<ProbeView, Seq<char>>(probe@)
                &&& forall|i: int|
                    0 <= i < at && decodes(#[trigger] codecs@[i], codec_id) ==> probed(
                        codecs@[i],
                        query,
                    ) is Err
            },
            Err(reason) => {
                &&& forall|i: int|
                    0 <= i < codecs@.len() && decodes(#[trigger] codecs@[i], codec_id) ==> probed(
                        codecs@[i],
                        query,
                    ) is Err
                &&& forall|first: int|
                    0 <= first < codecs@.len() && decodes(#[trigger] codecs@[first], codec_id) && (
                    forall|i: int| 0 <= i < first ==> !decodes(#[trigger] codecs@[i], codec_id))
                        ==> probed(codecs@[first], query) == Err::<ProbeView, Seq<char>>(reason@)
                &&& (forall|i: int|
                    0 <= i < codecs@.len() ==> !decodes(#[trigger] codecs@[i], codec_id))
                    ==> reason@ == "no video decoder found for codec id "@ + codec_id_name@
                    + " with "@ + query.device.device_text() + " hardware support"@
            },
        },
{
    let mut first_reason: Option<String> = None;
    let ghost mut first: int = 0;
    let mut at: usize = 0;
    while at < codecs.len()
        invariant
            at <= codecs.len(),
            forall|i: int|
                0 <= i < at && decodes(#[trigger] codecs@[i], codec_id) ==> probed(
                    codecs@[i],
                    query,
                ) is Err,
            match first_reason {
                Some(reason) => {
                    &&& 0 <= first < at
                    &&& decodes(codecs@[first], codec_id)
                    &&& forall|i: int| 0 <= i < first ==> !decodes(#[trigger] codecs@[i], codec_id)
                    &&& probed(codecs@[first], query) == Err::<ProbeView, Seq<char>>(reason@)
                },
                None => forall|i: int| 0 <= i < at ==> !decodes(#[trigger] codecs@[i], codec_id),
            },
        decreases codecs.len() - at,
    {
        let codec: &CodecCandidate = &codecs[at];
        if codec.is_decoder && codec.is_video && codec.id == codec_id {
            match codec_supports_hwdevice(codec, query) {
                Ok(probe) => {
                    return Ok((at, probe));
                },
                Err(reason) => {
                    if first_reason.is_none() {
                        first_reason = Some(reason);
                        proof {
                            first = at as int;
                        }
                    }
                },
            }
        }
        at = at + 1;
    }
    match first_reason {
        Some(reason) => {
            proof {
                assert forall|other: int|
                    0 <= other < codecs@.len() && decodes(#[trigger] codecs@[other], codec_id) && (
                    forall|i: int| 0 <= i < other ==> !decodes(
                        #[trigger] codecs@[i],
                        codec_id,
                    )) implies other == first by {
                    if other > first {
                        assert(!decodes(codecs@[first], codec_id));
                    }
                }
            }
            Err(reason)
        },
        None => {
            let mut reason: String = joined("no video decoder found for codec id ", codec_id_name);
            reason.append(" with ");
            reason.append(query.device.device_label());
            reason.append(" hardware support");
            Err(reason)
        },
    }
}

/// The pixel format that a decoder is to give frames in.
#[derive(Debug, Clone, Copy, PartialEq, Eq, Structural)]
pub enum PixelFormatChoice {
    /// The format of the device.
    Hardware,
    /// The format of the device, once a pool of frames is set up.
    HardwareWithFrames,
    /// Whatever the decoder chooses.
    DecoderDefault,
}

/// The pixel format to use where a decoder offers `formats`: that of the device, where it is among
/// them.
pub fn select_pixel_format(formats: &Vec<i32>, hw_pix_fmt: i32, requires_frames_ctx: bool) -> (choice:
    PixelFormatChoice)
    ensures
        choice == (if !formats@.contains(hw_pix_fmt) {
            PixelFormatChoice::DecoderDefault
        } else if requires_frames_ctx {
            PixelFormatChoice::HardwareWithFrames
        } else {
            PixelFormatChoice::Hardware
        }),
{
    if !contains_number(formats, hw_pix_fmt) {
        PixelFormatChoice::DecoderDefault
    } else if requires_frames_ctx {
        PixelFormatChoice::HardwareWithFrames
    } else {
        PixelFormatChoice::Hardware
    }
}

/// The devices go by these names.
pub proof fn devices_have_names(device: HardwareDevice)
    ensures
        device is Vulkan ==> device.device_text() == "vulkan"@ && device.producer_text()
            == "vulkan-hardware"@,
        device is Vaapi ==> device.device_text() == "vaapi"@ && device.producer_text()
            == "vaapi-upload"@,
{
}

/// A decoder can use a device exactly where one of its configurations is for that kind of device and
/// has the bit of one of the two ways; each way is found exactly where a configuration for the kind
/// has its bit.
pub proof fn probe_finds_configurations(codec: CodecCandidate, query: DeviceQuery)
    ensures
        ({
            let takes = |method: i32|
                exists|i: int|
                    0 <= i < codec.configs@.len() && (#[trigger] codec.configs@[i]).device_type
                        == query.device_type && codec.configs@[i].methods & method != 0;
            &&& probed(codec, query) is Ok <==> takes(query.device_method) || takes(
                query.frames_method,
            )
            &&& probed(codec, query) matches Ok(probe) ==> {
                &&& probe.codec_name == codec.name@
                &&& probe.device_method <==> takes(query.device_method)
                &&& probe.frames_method <==> takes(query.frames_method)
            }
            &&& probed(codec, query) matches Err(reason) ==> reason == "codec `"@ + codec.name@
                + "` exposes no "@ + query.device.device_text() + " hardware configuration"@
        }),
{
}

/// The pixel format of a probe is that of the last configuration for the kind of device.
pub proof fn probe_takes_last_format(codec: CodecCandidate, query: DeviceQuery, last: int)
    requires
        probed(codec, query) is Ok,
        0 <= last < codec.configs@.len(),
        codec.configs@[last].device_type == query.device_type,
        forall|i: int|
            last < i < codec.configs@.len() ==> (#[trigger] codec.configs@[i]).device_type
                != query.device_type,
    ensures
        ({
            let probe = probed(codec, query)->Ok_0;
            let config = codec.configs@[last];
            &&& probe.hw_pix_fmt == Some(config.pix_fmt)
            &&& config.pix_fmt_name is None <==> probe.hw_pix_fmt_name is None
            &&& config.pix_fmt_name is Some ==> probe.hw_pix_fmt_name->0
                == config.pix_fmt_name->0@
        }),
{
    lemma_last_config_at(codec.configs@, query.device_type, last);
}

proof fn lemma_last_config_at(configs: Seq<HardwareConfig>, device_type: i32, last: int)
    requires
        0 <= last < configs.len(),
        configs[last].device_type == device_type,
        forall|i: int|
            last < i < configs.len() ==> (#[trigger] configs[i]).device_type != device_type,
    ensures
        last_config(configs, device_type) == Some(configs[last]),
    decreases configs.len(),
{
    if last < configs.len() - 1 {
        assert(configs[configs.len() - 1].device_type != device_type);
        let shorter = configs.drop_last();
        assert forall|i: int| last < i < shorter.len() implies (#[trigger] shorter[i]).device_type
            != device_type by {
            assert(shorter[i] == configs[i]);
        }
        lemma_last_config_at(shorter, device_type, last);
    }
}

/// A probe is seen as it is.
pub proof fn probe_is_seen_as_it_is(probe: HardwareProbeResult)
    ensures
        probe@.codec_name == probe.codec_name@,
        probe@.hw_pix_fmt == probe.hw_pix_fmt,
        probe.hw_pix_fmt_name is None <==> probe@.hw_pix_fmt_name is None,
        probe.hw_pix_fmt_name is Some ==> probe@.hw_pix_fmt_name->0 == probe.hw_pix_fmt_name->0@,
        probe@.device_method == probe.device_method,
        probe@.frames_method == probe.frames_method,
{
}

/// Only a decoder, of video, of the kind that is asked for decodes it.
pub proof fn others_do_not_decode(codec: CodecCandidate, codec_id: i32)
    ensures
        !codec.is_decoder || !codec.is_video || codec.id < codec_id || codec.id > codec_id
            <==> !decodes(codec, codec_id),
{
}

} // verus!
