[package]
name = "report_views"
version = "0.1.0"
edition = "2021"
publish = false

[dependencies]
diesel = { version = "=2.2.12", features = ["postgres_backend"] }
diesel-async = { version = "=0.5.2", features = ["postgres"] }
# diesel-async joins futures with a macro that it does not switch on itself.
futures-util = { version = "=0.3.34", features = ["async-await-macro"] }
