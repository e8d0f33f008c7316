//! Metal storage modes and memory-type lookup, checked against `ash`'s
//! Vulkan definitions.

use ash::vk;
use iosonandroid::memory::{
    compute_device, compute_queue_family,
    find_memory_type, storage_mode_to_memory_properties, MemoryPropertyFlags,
    PhysicalDeviceMemoryProperties, StorageMode,
};

fn vk_flags(mode: StorageMode) -> vk::MemoryPropertyFlags {
    vk::MemoryPropertyFlags::from_raw(storage_mode_to_memory_properties(mode).as_raw())
}

fn flags(f: vk::MemoryPropertyFlags) -> MemoryPropertyFlags {
    MemoryPropertyFlags::from_raw(f.as_raw())
}

/// The memory types of `props` as the library takes them.
fn memory_types(props: &vk::PhysicalDeviceMemoryProperties) -> PhysicalDeviceMemoryProperties {
    PhysicalDeviceMemoryProperties {
        memory_types: props.memory_types[..props.memory_type_count as usize]
            .iter()
            .map(|t| flags(t.property_flags))
            .collect(),
    }
}

#[test]
fn shared_storage_is_host_visible_and_coherent() {
    let flags = vk_flags(StorageMode::Shared);
    assert!(flags.contains(vk::MemoryPropertyFlags::HOST_VISIBLE));
    assert!(flags.contains(vk::MemoryPropertyFlags::HOST_COHERENT));
    assert!(!flags.contains(vk::MemoryPropertyFlags::DEVICE_LOCAL));
}

#[test]
fn private_storage_is_device_local_only() {
    let flags = vk_flags(StorageMode::Private);
    assert_eq!(flags, vk::MemoryPropertyFlags::DEVICE_LOCAL);
}

#[test]
fn shared_and_private_translate_to_genuinely_different_flags() {
    assert_ne!(
        storage_mode_to_memory_properties(StorageMode::Shared),
        storage_mode_to_memory_properties(StorageMode::Private)
    );
}

#[allow(clippy::field_reassign_with_default)]
fn synthetic_memory_properties() -> vk::PhysicalDeviceMemoryProperties {
    let mut props = vk::PhysicalDeviceMemoryProperties::default();
    props.memory_type_count = 3;
    // type 0: device-local only
    props.memory_types[0] = vk::MemoryType {
        property_flags: vk::MemoryPropertyFlags::DEVICE_LOCAL,
        heap_index: 0,
    };
    // type 1: host-visible + host-coherent (but not device-local)
    props.memory_types[1] = vk::MemoryType {
        property_flags: vk::MemoryPropertyFlags::HOST_VISIBLE
            | vk::MemoryPropertyFlags::HOST_COHERENT,
        heap_index: 1,
    };
    // type 2: host-visible + coherent + cached (a "better" shared type)
    props.memory_types[2] = vk::MemoryType {
        property_flags: vk::MemoryPropertyFlags::HOST_VISIBLE
            | vk::MemoryPropertyFlags::HOST_COHERENT
            | vk::MemoryPropertyFlags::HOST_CACHED,
        heap_index: 1,
    };
    props
}

#[test]
fn finds_matching_memory_type_by_properties() {
    let props = memory_types(&synthetic_memory_properties());
    let all_types_bits = 0b111;
    let idx = find_memory_type(
        &props,
        all_types_bits,
        flags(vk::MemoryPropertyFlags::DEVICE_LOCAL),
    )
    .unwrap();
    assert_eq!(idx, 0);

    let idx = find_memory_type(
        &props,
        all_types_bits,
        flags(vk::MemoryPropertyFlags::HOST_VISIBLE | vk::MemoryPropertyFlags::HOST_COHERENT),
    )
    .unwrap();
    // First match wins: the lowest-index qualifying type.
    assert_eq!(idx, 1);
}

#[test]
fn respects_the_type_bits_mask() {
    let props = memory_types(&synthetic_memory_properties());
    // Exclude type 0 (bit 0) even though nothing else is required.
    let type_bits_excluding_0 = 0b110;
    let idx = find_memory_type(
        &props,
        type_bits_excluding_0,
        flags(vk::MemoryPropertyFlags::empty()),
    )
    .unwrap();
    assert_eq!(idx, 1);
}

#[test]
fn returns_none_when_no_type_matches() {
    let props = memory_types(&synthetic_memory_properties());
    let idx = find_memory_type(
        &props,
        0b111,
        flags(vk::MemoryPropertyFlags::DEVICE_LOCAL | vk::MemoryPropertyFlags::HOST_VISIBLE),
    );
    assert_eq!(idx, None);
}

#[test]
fn storage_modes_match_ash_bits() {
    assert_eq!(
        storage_mode_to_memory_properties(StorageMode::Shared).as_raw(),
        (vk::MemoryPropertyFlags::HOST_VISIBLE | vk::MemoryPropertyFlags::HOST_COHERENT).as_raw()
    );
    assert_eq!(
        storage_mode_to_memory_properties(StorageMode::Private).as_raw(),
        vk::MemoryPropertyFlags::DEVICE_LOCAL.as_raw()
    );
    assert_eq!(
        MemoryPropertyFlags::host_visible().as_raw(),
        vk::MemoryPropertyFlags::HOST_VISIBLE.as_raw()
    );
}

#[test]
fn a_full_table_of_memory_types_is_searched() {
    let mut types = vec![flags(vk::MemoryPropertyFlags::DEVICE_LOCAL); 31];
    types.push(flags(vk::MemoryPropertyFlags::HOST_VISIBLE));
    let props = PhysicalDeviceMemoryProperties {
        memory_types: types,
    };
    assert_eq!(
        find_memory_type(&props, u32::MAX, MemoryPropertyFlags::host_visible()),
        Some(31)
    );
    assert_eq!(
        find_memory_type(&props, 0x7fff_ffff, MemoryPropertyFlags::host_visible()),
        None
    );
}

#[test]
fn picks_the_first_compute_capable_queue_family() {
    let graphics = vk::QueueFlags::GRAPHICS.as_raw();
    let compute = vk::QueueFlags::COMPUTE.as_raw();
    let transfer = vk::QueueFlags::TRANSFER.as_raw();
    assert_eq!(
        compute_queue_family(&[graphics, transfer, compute | transfer, compute]),
        Some(2)
    );
    assert_eq!(compute_queue_family(&[graphics | compute]), Some(0));
    assert_eq!(compute_queue_family(&[graphics, transfer]), None);
    assert_eq!(compute_queue_family(&[]), None);
}

#[test]
fn picks_the_first_device_with_a_compute_queue_family() {
    let graphics = vk::QueueFlags::GRAPHICS.as_raw();
    let compute = vk::QueueFlags::COMPUTE.as_raw();
    let transfer = vk::QueueFlags::TRANSFER.as_raw();
    let devices = vec![
        vec![graphics, transfer],
        vec![],
        vec![transfer, graphics | compute],
        vec![compute],
    ];
    assert_eq!(compute_device(&devices), Some((2, 1)));
    assert_eq!(compute_device(&devices[..2]), None);
    assert_eq!(compute_device(&[]), None);
}
