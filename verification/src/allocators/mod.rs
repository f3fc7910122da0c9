//! Index allocators and the handle-checked storages built on them.

pub mod borrow_many;
pub mod cookies;
pub mod handle;
pub mod linear_index_allocator;
pub mod pool_allocator;
pub mod ring_buffer_allocator;
pub mod ring_buffer_index_allocator;

pub use cookies::{Cookie, EmptyCookie, GenCookie};
pub use handle::{Handle, UntypedHandle};
pub use linear_index_allocator::LinearIndexAllocator;
pub use pool_allocator::Pool;
pub use ring_buffer_allocator::RingBuffer;
pub use ring_buffer_index_allocator::RingBufferIndexAllocator;
