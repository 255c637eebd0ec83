//! The application: the admission pipeline, the lifecycle controller and
//! the upstream client of one server, built once from the configuration.

pub mod admission;
pub mod admission_laws;
pub mod answer_facts;
pub mod lifecycle;
pub mod observe;
pub mod pass_facts;
pub mod pipeline;
pub mod quiet_facts;
pub mod router;

use crate::application::admission::PipelineView;
use crate::application::lifecycle::{Lifecycle, LifecycleView};
use crate::application::pipeline::Pipeline;
use crate::configuration::{ServerConfig, ServerConfigView};
use crate::domain::newrelic::newrelic::Newrelic;
use vstd::prelude::*;

verus! {

/// A layer of the middleware chain, with the limit it enforces.
#[derive(Debug, Clone, Copy, PartialEq, Eq, Structural)]
pub enum Layer {
    /// Turns the rejection of a layer below into an answer.
    ErrorRecovery,
    /// Rejects at once when the buffer below is full.
    LoadShed,
    /// Queues up to `capacity` requests.
    Buffer { capacity: usize },
    /// Lets at most `limit` requests through at once.
    ConcurrencyLimit { limit: usize },
    /// Gives each request at most `millis` milliseconds.
    Timeout { millis: u64 },
    /// Lets at most `requests` requests through per window of `per_millis`
    /// milliseconds.
    RateLimit { requests: u64, per_millis: u64 },
    /// Opens a trace span around the request.
    Trace,
    /// Counts the request and measures its latency.
    Metrics,
    /// Compresses the body of the answer.
    Compression,
}

/// The layers a request passes on its way in, outermost first. The metrics
/// layer is there only where the instrumentation is switched on.
pub open spec fn stack_of(config: ServerConfigView) -> Seq<Layer> {
    let guards = seq![
        Layer::ErrorRecovery,
        Layer::LoadShed,
        Layer::Buffer { capacity: config.buffer },
        Layer::ConcurrencyLimit { limit: config.concurrency_limit },
        Layer::Timeout { millis: config.timeout },
        Layer::RateLimit { requests: config.rate_limit, per_millis: config.limiter_timeout },
        Layer::Trace,
    ];
    if config.metrics {
        guards + seq![Layer::Metrics, Layer::Compression]
    } else {
        guards + seq![Layer::Compression]
    }
}

/// The layers a request passes on its way in, outermost first.
pub fn middleware_stack(config: &ServerConfig) -> (layers: Vec<Layer>)
    ensures
        layers@ == stack_of(config@),
{
    let mut layers: Vec<Layer> = Vec::new();
    layers.push(Layer::ErrorRecovery);
    layers.push(Layer::LoadShed);
    layers.push(Layer::Buffer { capacity: *config.get_buffer() });
    layers.push(Layer::ConcurrencyLimit { limit: *config.get_concurrency_limit() });
    layers.push(Layer::Timeout { millis: *config.get_timeout() });
    layers.push(
        Layer::RateLimit {
            requests: *config.get_rate_limit(),
            per_millis: *config.get_limiter_timeout(),
        },
    );
    layers.push(Layer::Trace);
    if *config.get_metrics() {
        layers.push(Layer::Metrics);
    }
    layers.push(Layer::Compression);
    assert(layers@ =~= stack_of(config@));
    layers
}

/// One server: its pipeline, its lifecycle, its upstream client, and
/// whether it exposes its metrics.
#[derive(Debug)]
pub struct Application {
    pub pipeline: Pipeline,
    pub lifecycle: Lifecycle,
    pub newrelic: Newrelic,
    pub layers: Vec<Layer>,
    pub metrics: bool,
}

/// Builds the application for a configuration: an empty pipeline with the
/// limits of the configuration, a lifecycle that has not started, and the
/// layers in their order.
pub fn build(config: ServerConfig, newrelic: Newrelic) -> (application: Application)
    ensures
        application.pipeline@ == PipelineView::fresh(config@),
        application.pipeline@.wf(),
        application.lifecycle@ == LifecycleView::initial(),
        application.newrelic == newrelic,
        application.layers@ == stack_of(config@),
        application.metrics == config@.metrics,
{
    let layers = middleware_stack(&config);
    let metrics = *config.get_metrics();
    Application {
        pipeline: Pipeline::new(config),
        lifecycle: Lifecycle::new(),
        newrelic,
        layers,
        metrics,
    }
}

/// A termination signal came at `now`: the lifecycle begins its drain. The
/// pipeline goes on as it is, so that requests under way can finish.
pub fn graceful_shutdown(application: &mut Application, now: u64)
    ensures
        final(application).lifecycle@ == old(application).lifecycle@.shutdown(now),
        final(application).pipeline == old(application).pipeline,
        final(application).newrelic == old(application).newrelic,
        final(application).layers == old(application).layers,
        final(application).metrics == old(application).metrics,
{
    application.lifecycle.graceful_shutdown(now);
}

} // verus!
