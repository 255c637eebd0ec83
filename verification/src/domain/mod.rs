pub mod newrelic;
