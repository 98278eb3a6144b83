[package]
name = "rk4_ode"
version = "0.1.0"
edition = "2021"
publish = false

[dependencies]
chrono = "*"
gnuplot = "*"
