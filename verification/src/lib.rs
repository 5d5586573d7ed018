//! Mid-level GPU resource, pipeline and submission layer.
//!
//! The crate models the data that drives an explicit GPU driver interface:
//! memory-type selection, host-visible buffer contents, reflection-driven
//! descriptor layouts, pipeline state, command recording and submission
//! tracking. Driver calls themselves live outside the library; the library
//! decides, and its contracts say exactly what each decision is.

pub mod buffer;
pub mod bytes;
pub mod descriptor;
pub mod gpu_caps;
pub mod image;
pub mod layout;
pub mod memory;
pub mod pipeline;
pub mod recorder;
pub mod shader;
pub mod swapchain_config;
