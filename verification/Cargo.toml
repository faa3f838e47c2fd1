[package]
name = "gdn_dispatch"
version = "0.1.0"
edition = "2021"
publish = false

[dependencies]
objc2 = "0.6"
objc2-foundation = { version = "0.3", default-features = false, features = ["std", "NSString", "NSRange"] }
objc2-metal = { version = "0.3", default-features = false, features = ["std", "MTLAllocation", "MTLArgument", "MTLBuffer", "MTLCommandBuffer", "MTLCommandEncoder", "MTLComputeCommandEncoder", "MTLComputePipeline", "MTLDevice", "MTLLibrary", "MTLResource", "MTLTypes"] }
