pub mod metrics;
pub mod model;

pub use metrics::cpu_requested_cores_handler;
pub use metrics::cpu_used_cores_handler;
pub use metrics::memory_heap_used_handler;
pub use metrics::metric_handler;
pub use metrics::response_time_average_handler;
pub use metrics::thread_count_handler;
pub use metrics::throughput_handler;
pub use metrics::total_pods_handler;
