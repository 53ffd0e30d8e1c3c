[package]
name = "led_rotate"
version = "0.1.0"
edition = "2021"
publish = false

[dependencies]
heapless = "=0.8.0"
cortex-m = "=0.7.10"
cortex-m-rt = "=0.7.7"
critical-section = "=1.2.0"
rtt-target = "=0.6.2"
panic-rtt-target = "=0.2.0"
stm32f3 = { version = "=0.15.1", features = ["stm32f303"] }
stm32f3xx-hal = { version = "=0.10.0", features = ["stm32f303xc"] }
embassy-executor = { version = "=0.9.1", features = ["arch-std", "executor-thread"] }
embassy-stm32 = { version = "=0.6.0", features = ["stm32f303vc", "time-driver-any", "exti"] }
embassy-sync = { version = "=0.8.0", features = ["std"] }
embassy-time = "=0.5.1"
