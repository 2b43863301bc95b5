//! Pixel formats, display selection and frame hand-off for hardware video output.
pub mod atomic;
pub mod conversion;
pub mod copy;
pub mod copy_laws;
pub mod decode;
pub mod decoder;
pub mod dmabuf;
pub mod dumb_buffer;
pub mod error;
pub mod export;
pub mod fourcc;
pub mod frame_laws;
pub mod gradient;
pub mod h265;
pub mod import;
pub mod lease;
pub mod ledger;
pub mod managed;
pub mod mode;
pub mod modeset;
pub mod paint;
pub mod pick;
pub mod pixel_format;
pub mod prime_display;
pub mod prime_export;
pub mod prime_loop;
pub mod property;
pub mod queue;
pub mod raw;
pub mod raw_history;
pub mod raw_loop;
pub mod scanout;
pub mod schedule;
pub mod setup;
pub mod sink;
pub mod submit;
pub mod text;
pub mod topology;
