use frankentorch::meta::{contiguous_strides, DType, Device, TensorMeta, TensorMetaError};

#[test]
fn scalar_meta_is_valid() {
    let meta = TensorMeta::scalar(DType::F64, Device::Cpu);
    assert!(meta.validate().is_ok());
    assert!(meta.shape().is_empty());
    assert!(meta.strides().is_empty());
    assert_eq!(meta.numel(), 1);
    assert!(meta.is_contiguous());
}

#[test]
fn shape_builds_contiguous_strides() {
    let meta = TensorMeta::from_shape(vec![2, 3, 4], DType::F64, Device::Cpu);
    assert_eq!(meta.strides(), &[12, 4, 1]);
    assert_eq!(meta.numel(), 24);
    assert!(meta.is_contiguous());
}

#[test]
fn custom_strides_validate_and_index_into_storage() {
    let meta =
        TensorMeta::from_shape_and_strides(vec![2, 2], vec![4, 1], 3, DType::F64, Device::Cpu)
            .expect("meta should validate");

    assert_eq!(meta.storage_index_for(&[0, 0]).expect("index 0,0"), 3);
    assert_eq!(meta.storage_index_for(&[1, 1]).expect("index 1,1"), 8);
}

#[test]
fn index_rank_and_bounds_are_guarded() {
    let meta = TensorMeta::from_shape(vec![2, 3], DType::F64, Device::Cpu);

    let rank_err = meta
        .storage_index_for(&[1])
        .expect_err("rank mismatch should fail");
    assert!(matches!(
        rank_err,
        TensorMetaError::IndexRankMismatch {
            expected: 2,
            actual: 1
        }
    ));

    let oob_err = meta
        .storage_index_for(&[2, 0])
        .expect_err("out-of-bounds index should fail");
    assert!(matches!(
        oob_err,
        TensorMetaError::IndexOutOfBounds {
            dim: 0,
            index: 2,
            size: 2
        }
    ));
}

#[test]
fn contiguous_stride_helper_handles_scalar() {
    assert_eq!(contiguous_strides(&[]), Vec::<usize>::new());
}

#[test]
fn meta_fingerprint_changes_when_offset_changes() {
    let a = TensorMeta::from_shape(vec![2, 2], DType::F64, Device::Cpu);
    let b = a.clone().with_storage_offset(1);
    assert_ne!(a.fingerprint64(), b.fingerprint64());
}

#[test]
fn fingerprint_is_a_function_of_the_fields() {
    let a = TensorMeta::from_shape(vec![2, 5], DType::F64, Device::Cpu);
    let b = TensorMeta::from_shape_and_strides(vec![2, 5], vec![5, 1], 0, DType::F64, Device::Cpu)
        .expect("canonical layout validates");
    assert_eq!(a.fingerprint64(), b.fingerprint64());
    assert_eq!(a.is_contiguous(), a.clone().is_contiguous());
    assert_eq!(a.fingerprint64(), a.clone().fingerprint64());
}

#[test]
fn rank_stride_mismatch_is_rejected() {
    let err = TensorMeta::from_shape_and_strides(vec![2, 2], vec![1], 0, DType::F64, Device::Cpu)
        .expect_err("ranks differ");
    assert_eq!(err, TensorMetaError::RankStrideMismatch { rank: 2, strides: 1 });
    assert_eq!(err.to_string(), "shape rank 2 does not match strides rank 1");
}

#[test]
fn stride_overflow_is_rejected() {
    let err = TensorMeta::from_shape_and_strides(vec![3], vec![usize::MAX], 0, DType::F64, Device::Cpu)
        .expect_err("span overflows");
    assert_eq!(err, TensorMetaError::StrideOverflow { size: 3, stride: usize::MAX });
}

#[test]
fn accumulated_span_overflow_is_rejected() {
    let half = usize::MAX / 2 + 1;
    let err = TensorMeta::from_shape_and_strides(vec![2, 2], vec![half, half], 0, DType::F64, Device::Cpu)
        .expect_err("sum of spans overflows");
    assert_eq!(
        err,
        TensorMetaError::StorageOffsetOverflow { storage_offset: 0, max_linear_offset: half }
    );
}

#[test]
fn offset_overflow_is_rejected() {
    let err = TensorMeta::from_shape_and_strides(vec![2], vec![1], usize::MAX, DType::F64, Device::Cpu)
        .expect_err("offset plus span overflows");
    assert_eq!(
        err,
        TensorMetaError::StorageOffsetOverflow { storage_offset: usize::MAX, max_linear_offset: 1 }
    );
}

#[test]
fn zero_sized_dimensions_are_skipped_in_span() {
    let meta = TensorMeta::from_shape_and_strides(vec![0, 4], vec![usize::MAX, 1], 5, DType::F64, Device::Cpu)
        .expect("empty dimension contributes nothing");
    assert_eq!(meta.numel(), 0);
    assert!(!meta.is_contiguous());
}

#[test]
fn saturating_strides_and_numel() {
    let big = usize::MAX / 2;
    assert_eq!(contiguous_strides(&[2, big, 4]), vec![usize::MAX, 4, 1]);
    let meta = TensorMeta::from_shape(vec![3, big], DType::F64, Device::Cpu);
    assert_eq!(meta.numel(), usize::MAX);
}

#[test]
fn offset_view_is_not_rebased() {
    let meta = TensorMeta::from_shape(vec![3], DType::F64, Device::Cpu).with_storage_offset(2);
    assert_eq!(meta.storage_offset(), 2);
    assert!(meta.is_contiguous());
    assert_eq!(meta.storage_index_for(&[2]).expect("in bounds"), 4);
}

#[test]
fn meta_error_messages_are_exact() {
    let err = TensorMetaError::IndexOutOfBounds { dim: 1, index: 30, size: 4 };
    assert_eq!(err.to_string(), "index out of bounds at dim=1: index=30, size=4");
    let err = TensorMetaError::StorageOffsetOverflow { storage_offset: 7, max_linear_offset: 1234567890 };
    assert_eq!(
        err.to_string(),
        "storage offset overflow for storage_offset=7, max_linear_offset=1234567890"
    );
}
