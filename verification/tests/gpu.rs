use woodeneye::gpu::{
    select_device, swapchain_images, usable_family, Candidate, DeviceKind, QueueFamily,
};

fn family(graphics: bool, presents: bool) -> QueueFamily {
    QueueFamily { graphics, presents }
}

fn device(supported: bool, families: Vec<QueueFamily>, kind: DeviceKind) -> Candidate {
    Candidate {
        supported,
        families,
        kind,
    }
}

#[test]
fn first_family_that_draws_and_presents() {
    let families = vec![
        family(true, false),
        family(false, true),
        family(true, true),
        family(true, true),
    ];
    assert_eq!(usable_family(&families), Some(2));
    assert_eq!(usable_family(&vec![family(true, false)]), None);
    assert_eq!(usable_family(&vec![]), None);
}

#[test]
fn best_kind_is_chosen() {
    let good = || vec![family(false, false), family(true, true)];
    let all = [
        device(true, good(), DeviceKind::Unknown),
        device(true, good(), DeviceKind::Cpu),
        device(true, good(), DeviceKind::Integrated),
        device(true, good(), DeviceKind::Discrete),
        device(true, good(), DeviceKind::Virtual),
        device(true, good(), DeviceKind::Other),
    ];
    assert_eq!(select_device(&all), Some((3, 1)));
    assert_eq!(select_device(&all[..3]), Some((2, 1)));
    assert_eq!(select_device(&all[..2]), Some((1, 1)));
    assert_eq!(select_device(&all[4..]), Some((0, 1)));
}

#[test]
fn first_of_equals_is_chosen() {
    let good = || vec![family(true, true)];
    let two = [
        device(true, good(), DeviceKind::Integrated),
        device(true, good(), DeviceKind::Integrated),
    ];
    assert_eq!(select_device(&two), Some((0, 0)));
}

#[test]
fn unsuitable_devices_are_passed_over() {
    let devices = [
        device(false, vec![family(true, true)], DeviceKind::Discrete),
        device(true, vec![family(true, false)], DeviceKind::Discrete),
        device(true, vec![family(true, true)], DeviceKind::Other),
    ];
    assert_eq!(select_device(&devices), Some((2, 0)));
    assert_eq!(select_device(&devices[..2]), None);
    assert_eq!(select_device(&[]), None);
}

#[test]
fn swapchains_have_three_images_or_more() {
    assert_eq!(swapchain_images(0), 3);
    assert_eq!(swapchain_images(2), 3);
    assert_eq!(swapchain_images(3), 3);
    assert_eq!(swapchain_images(8), 8);
}
