//! Tests for operation descriptions and execution backends.

use flipr::Backend;
use flipr::BackendError;
use flipr::BackendProcessor;
use flipr::CpuBackend;
use flipr::Gray;
use flipr::GpuBackend;
use flipr::ImageProcessor;
use flipr::Operation;
use flipr::OperationBuilder;
use flipr::PointwiseOp;

#[test]
fn test_cpu_backend() {
    let backend = CpuBackend;
    let op = Operation::<Gray<u8>>::Custom {
        name: "test".to_string(),
        data: vec![Gray { value: 42 }],
    };
    let result = backend.execute(&op);
    assert!(result.is_ok());
}

#[test]
fn test_gpu_backend_not_supported() {
    let backend = GpuBackend::new(0);
    let op = Operation::<Gray<u8>>::Pointwise {
        function: PointwiseOp::Identity,
    };
    let result = backend.execute(&op);
    assert!(result.is_err());
}

#[test]
fn test_operation_builder() {
    let op = OperationBuilder::<Gray<u8>>::pointwise(PointwiseOp::Brighten((0.5f64).to_bits()));
    match op {
        Operation::Pointwise { function } => {
            matches!(function, PointwiseOp::Brighten(_));
        }
        _ => panic!("Expected pointwise operation"),
    }
}

#[test]
fn cpu_backend_returns_custom_data() {
    let backend = CpuBackend;
    let data = vec![Gray { value: 1u8 }, Gray { value: 2 }, Gray { value: 3 }];
    let op = Operation::Custom { name: "raw".to_string(), data: data.clone() };
    let result = backend.execute(&op).unwrap();
    assert_eq!(result.len(), 3);
    assert_eq!(result[0], Gray { value: 1 });
    assert_eq!(result[2], Gray { value: 3 });
    let empty = backend
        .execute(&Operation::<Gray<u8>>::Pointwise { function: PointwiseOp::Negate })
        .unwrap();
    assert!(empty.is_empty());
}

#[test]
fn backend_processor_serves_row_major() {
    let data = vec![
        Gray { value: 10u8 },
        Gray { value: 11 },
        Gray { value: 12 },
        Gray { value: 13 },
        Gray { value: 14 },
        Gray { value: 15 },
    ];
    let op = Operation::Custom { name: "grid".to_string(), data };
    let processor = BackendProcessor::new(op, CpuBackend, 3, 2);
    assert_eq!(processor.dimensions(), (3, 2));
    assert_eq!(processor.process_pixel(0, 0).unwrap(), Some(Gray { value: 10 }));
    assert_eq!(processor.process_pixel(2, 0).unwrap(), Some(Gray { value: 12 }));
    assert_eq!(processor.process_pixel(1, 1).unwrap(), Some(Gray { value: 14 }));
    assert_eq!(processor.process_pixel(3, 0).unwrap(), None);
    assert_eq!(processor.process_pixel(0, 2).unwrap(), None);
}

#[test]
fn backend_processor_short_output_is_absent() {
    let op = Operation::Custom {
        name: "short".to_string(),
        data: vec![Gray { value: 9u8 }],
    };
    let processor = BackendProcessor::new(op, CpuBackend, 2, 2);
    assert_eq!(processor.process_pixel(0, 0).unwrap(), Some(Gray { value: 9 }));
    // The backend produced fewer pixels than the rectangle holds.
    assert_eq!(processor.process_pixel(1, 1).unwrap(), None);
}

#[test]
fn backend_processor_propagates_failure() {
    let op = Operation::<Gray<u8>>::Pointwise { function: PointwiseOp::Identity };
    let processor = BackendProcessor::new(op, GpuBackend::new(0), 2, 2);
    let r = processor.process_pixel(0, 0);
    assert!(matches!(r, Err(BackendError::NotSupported)));
    // Out of bounds stays absence, not failure.
    assert_eq!(processor.process_pixel(5, 5).unwrap(), None);
}

#[test]
fn execution_failed_carries_message() {
    let e = BackendError::ExecutionFailed("device lost".to_string());
    match e {
        BackendError::ExecutionFailed(msg) => assert_eq!(msg, "device lost"),
        BackendError::NotSupported => panic!("wrong variant"),
    }
}

#[test]
fn builder_wraps_kernels_and_custom_data() {
    let kernel = vec![vec![(0.25f64).to_bits(), (0.5f64).to_bits()]];
    let op = OperationBuilder::<Gray<u8>>::convolve(kernel.clone());
    match op {
        Operation::Convolve { kernel: k } => assert_eq!(k, kernel),
        _ => panic!("Expected convolution"),
    }
    let data = vec![Gray { value: 7u8 }];
    let op2 = OperationBuilder::<Gray<u8>>::custom("named".to_string(), data);
    match op2 {
        Operation::Custom { name, data } => {
            assert_eq!(name, "named");
            assert_eq!(data.len(), 1);
        }
        _ => panic!("Expected custom operation"),
    }
    let _ = OperationBuilder::<Gray<u8>>::new();
    let _ = OperationBuilder::<Gray<u8>>::default();
}
