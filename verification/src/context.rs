//! The GPU context: instance, adapter, device and queue, with what the device can do.
use vstd::prelude::*;
use crate::gpu::{
    adapter_clone, device_clone, device_features, device_limit_numbers, device_limits, device_wait_idle,
    adapter_request_device, instance_clone, queue_device, queue_clone, read_device_limits, DeviceLimits,
};

verus! {

/// Which adapter to prefer when several are offered.
#[derive(Clone, Copy, Debug, PartialEq, Eq, Structural)]
pub enum PowerPreference {
    /// Power use is not considered.
    Unspecified,
    /// The adapter that uses the least power.
    LowPower,
    /// The adapter with the highest performance.
    HighPerformance,
}

/// What the engine asks of the GPU it runs on.
pub struct ContextConfig {
    pub power_preference: PowerPreference,
    pub min_immediate_size: u32,
    pub min_bind_groups: u32,
    pub frames_in_flight: usize,
}

impl Default for ContextConfig {
    /// High performance, at least 128 bytes of immediates and 8 bind groups, two frames in
    /// flight.
    fn default() -> (r: Self)
        ensures
            r.power_preference == PowerPreference::HighPerformance,
            r.min_immediate_size == 128,
            r.min_bind_groups == 8,
            r.frames_in_flight == 2,
    {
        ContextConfig {
            power_preference: PowerPreference::HighPerformance,
            min_immediate_size: 128,
            min_bind_groups: 8,
            frames_in_flight: 2,
        }
    }
}

/// What the acquired device supports.
pub struct Capabilities {
    pub features: wgpu::Features,
    pub limits: wgpu::Limits,
    pub max_immediate_size: u32,
    pub max_bind_groups: u32,
    pub supports_bindless: bool,
    pub max_color_attachments: u32,
    pub max_color_attachment_bytes_per_sample: u32,
    pub device_limits: DeviceLimits,
}

/// Why the GPU context could not be set up.
pub enum RhiError {
    CreateSurface(wgpu::CreateSurfaceError),
    RequestAdapter(wgpu::RequestAdapterError),
    RequestDevice(wgpu::RequestDeviceError),
    UnmetLimit { name: &'static str, required: u32, available: u32 },
}

/// The adapter limits the engine checks, as the adapter reports them.
pub struct AdapterLimits {
    pub max_immediate_size: u32,
    pub max_bind_groups: u32,
}

/// The verdict on an adapter's limits: the first unmet limit, immediate-data size before
/// bind-group count, with its name, what is required and what is available.
pub open spec fn limit_check(config: ContextConfig, available: AdapterLimits) -> Result<(), RhiError> {
    if available.max_immediate_size < config.min_immediate_size {
        Err(RhiError::UnmetLimit {
            name: "min_immediate_size",
            required: config.min_immediate_size,
            available: available.max_immediate_size,
        })
    } else if available.max_bind_groups < config.min_bind_groups {
        Err(RhiError::UnmetLimit {
            name: "min_bind_groups",
            required: config.min_bind_groups,
            available: available.max_bind_groups,
        })
    } else {
        Ok(())
    }
}

/// Checks an adapter's limits against the configuration: the immediate-data size first,
/// then the bind-group count. The first unmet one is reported with its name, what was
/// required and what is available.
pub fn check_adapter_limits(config: &ContextConfig, available: &AdapterLimits) -> (r: Result<(), RhiError>)
    ensures
        r == limit_check(*config, *available),
{
    if available.max_immediate_size < config.min_immediate_size {
        return Err(
            RhiError::UnmetLimit {
                name: "min_immediate_size",
                required: config.min_immediate_size,
                available: available.max_immediate_size,
            },
        );
    }
    if available.max_bind_groups < config.min_bind_groups {
        return Err(
            RhiError::UnmetLimit {
                name: "min_bind_groups",
                required: config.min_bind_groups,
                available: available.max_bind_groups,
            },
        );
    }
    Ok(())
}

/// Whether every feature of `wanted` is among `features`.
pub uninterp spec fn features_include(features: wgpu::Features, wanted: wgpu::Features) -> bool;

/// Calls `Features::contains`: whether all of `wanted`'s flags are set in `features`. The
/// result is named.
#[verifier::external_body]
pub(crate) fn features_contains(features: &wgpu::Features, wanted: &wgpu::Features) -> (r: bool)
    ensures
        r == features_include(*features, *wanted),
{
    features.contains(*wanted)
}

/// Whether an adapter with `adapter_features` supports bindless resources: it offers every
/// feature of `bindless`. The device is then asked for them.
pub fn supports_bindless(adapter_features: &wgpu::Features, bindless: &wgpu::Features) -> (r: bool)
    ensures
        r == features_include(*adapter_features, *bindless),
{
    features_contains(adapter_features, bindless)
}

/// A device and the queue it was opened with.
pub struct OpenedDevice {
    device: wgpu::Device,
    queue: wgpu::Queue,
}

impl OpenedDevice {
    #[verifier::type_invariant]
    spec fn paired(self) -> bool {
        queue_device(self.queue) == self.device
    }

    /// The device.
    pub closed spec fn device_value(&self) -> wgpu::Device {
        self.device
    }

    /// The queue.
    pub closed spec fn queue_value(&self) -> wgpu::Queue {
        self.queue
    }
}

/// Asks `adapter` for a device with `required_features` and `required_limits`, labelled
/// `gecko-device`; the adapter's refusal is reported as `RequestDevice`.
pub fn open_device(adapter: &wgpu::Adapter, required_features: wgpu::Features, required_limits: wgpu::Limits) -> (r:
    Result<OpenedDevice, RhiError>)
    ensures
        r matches Err(e) ==> e is RequestDevice,
{
    match adapter_request_device(adapter, "gecko-device", required_features, required_limits) {
        Ok((device, queue)) => Ok(OpenedDevice { device, queue }),
        Err(e) => Err(RhiError::RequestDevice(e)),
    }
}

/// The instance, adapter, device and queue the engine renders with.
pub struct Context {
    instance: wgpu::Instance,
    adapter: wgpu::Adapter,
    device: wgpu::Device,
    queue: wgpu::Queue,
    capabilities: Capabilities,
}

impl Context {
    #[verifier::type_invariant]
    spec fn limits_read(self) -> bool {
        &&& queue_device(self.queue) == self.device
        &&& self.capabilities.device_limits == device_limit_numbers(self.device)
        &&& self.capabilities.max_color_attachments == self.capabilities.device_limits.max_color_attachments
        &&& self.capabilities.max_color_attachment_bytes_per_sample
            == self.capabilities.device_limits.max_color_attachment_bytes_per_sample
    }

    /// What the device supports.
    pub closed spec fn caps(&self) -> Capabilities {
        self.capabilities
    }

    /// A context over an acquired device: its capabilities are the device's features and
    /// limits, the adapter's immediate-data size and bind-group count, and whether the
    /// adapter supports bindless resources.
    pub fn from_parts(
        instance: wgpu::Instance,
        adapter: wgpu::Adapter,
        opened: OpenedDevice,
        adapter_limits: &AdapterLimits,
        supports_bindless: bool,
    ) -> (r: Context)
        ensures
            r.caps().max_immediate_size == adapter_limits.max_immediate_size,
            r.caps().max_bind_groups == adapter_limits.max_bind_groups,
            r.caps().supports_bindless == supports_bindless,
            r.caps().device_limits == device_limit_numbers(opened.device_value()),
            r.caps().max_color_attachments == device_limit_numbers(opened.device_value()).max_color_attachments,
            r.caps().max_color_attachment_bytes_per_sample
                == device_limit_numbers(opened.device_value()).max_color_attachment_bytes_per_sample,
            r.instance_value() == instance,
            r.adapter_value() == adapter,
            r.device_value() == opened.device_value(),
            r.queue_value() == opened.queue_value(),
    {
        proof {
            use_type_invariant(&opened);
        }
        let OpenedDevice { device, queue } = opened;
        let numbers = read_device_limits(&device);
        let capabilities = Capabilities {
            features: device_features(&device),
            limits: device_limits(&device),
            max_immediate_size: adapter_limits.max_immediate_size,
            max_bind_groups: adapter_limits.max_bind_groups,
            supports_bindless,
            max_color_attachments: numbers.max_color_attachments,
            max_color_attachment_bytes_per_sample: numbers.max_color_attachment_bytes_per_sample,
            device_limits: numbers,
        };
        Context { instance, adapter, device, queue, capabilities }
    }

    /// The device's limits, as its capabilities record them.
    pub fn limits(&self) -> (r: DeviceLimits)
        ensures
            r == self.caps().device_limits,
            r == device_limit_numbers(self.device_value()),
            self.caps().max_color_attachments == r.max_color_attachments,
            self.caps().max_color_attachment_bytes_per_sample == r.max_color_attachment_bytes_per_sample,
    {
        proof {
            use_type_invariant(self);
        }
        self.capabilities.device_limits
    }

    /// The instance.
    pub closed spec fn instance_value(&self) -> wgpu::Instance {
        self.instance
    }

    /// The adapter.
    pub closed spec fn adapter_value(&self) -> wgpu::Adapter {
        self.adapter
    }

    /// The device.
    pub closed spec fn device_value(&self) -> wgpu::Device {
        self.device
    }

    /// The queue.
    pub closed spec fn queue_value(&self) -> wgpu::Queue {
        self.queue
    }

    pub(crate) fn instance(&self) -> (r: &wgpu::Instance)
        ensures
            *r == self.instance_value(),
    {
        &self.instance
    }

    pub(crate) fn adapter(&self) -> (r: &wgpu::Adapter)
        ensures
            *r == self.adapter_value(),
    {
        &self.adapter
    }

    pub(crate) fn device(&self) -> (r: &wgpu::Device)
        ensures
            *r == self.device_value(),
            self.caps().device_limits == device_limit_numbers(*r),
            queue_device(self.queue_value()) == *r,
    {
        proof {
            use_type_invariant(self);
        }
        &self.device
    }

    pub(crate) fn queue(&self) -> (r: &wgpu::Queue)
        ensures
            *r == self.queue_value(),
            queue_device(*r) == self.device_value(),
    {
        proof {
            use_type_invariant(self);
        }
        &self.queue
    }

    /// What the device supports.
    pub fn capabilities(&self) -> (r: &Capabilities)
        ensures
            *r == self.caps(),
    {
        &self.capabilities
    }

    /// Blocks until the device has finished all submitted work.
    pub fn wait_idle(&self) {
        device_wait_idle(&self.device)
    }

    /// A second handle to the instance.
    pub(crate) fn instance_handle(&self) -> (r: wgpu::Instance)
        ensures
            r == self.instance_value(),
    {
        instance_clone(&self.instance)
    }

    /// A second handle to the adapter.
    pub(crate) fn adapter_handle(&self) -> (r: wgpu::Adapter)
        ensures
            r == self.adapter_value(),
    {
        adapter_clone(&self.adapter)
    }

    /// A second handle to the device.
    pub(crate) fn device_handle(&self) -> (r: wgpu::Device)
        ensures
            r == self.device_value(),
    {
        device_clone(&self.device)
    }

    /// A second handle to the queue.
    pub(crate) fn queue_handle(&self) -> (r: wgpu::Queue)
        ensures
            r == self.queue_value(),
    {
        queue_clone(&self.queue)
    }
}


/// The adapter's limits are checked in a fixed order. A short immediate-data size is the
/// error whatever the bind-group count, reported with its name, the size required and the
/// size available; a short bind-group count is the error only when the immediate-data size
/// suffices; and the check passes exactly when neither is short.
pub proof fn lemma_limit_check_order(config: ContextConfig, available: AdapterLimits)
    ensures
        available.max_immediate_size < config.min_immediate_size ==> limit_check(config, available) == Err::<
            (),
            RhiError,
        >(
            RhiError::UnmetLimit {
                name: "min_immediate_size",
                required: config.min_immediate_size,
                available: available.max_immediate_size,
            },
        ),
        available.max_immediate_size >= config.min_immediate_size && available.max_bind_groups
            < config.min_bind_groups ==> limit_check(config, available) == Err::<(), RhiError>(
            RhiError::UnmetLimit {
                name: "min_bind_groups",
                required: config.min_bind_groups,
                available: available.max_bind_groups,
            },
        ),
        limit_check(config, available) is Ok <==> available.max_immediate_size >= config.min_immediate_size
            && available.max_bind_groups >= config.min_bind_groups,
{
}

} // verus!
