use vstd::prelude::*;

verus! {

/// A device and the devices it contains.
pub struct DeviceTree<T> {
    pub device: T,
    pub children: Vec<DeviceTree<T>>,
}

/// The devices of a list of trees, each tree in pre-order: a device before
/// the devices it contains.
pub open spec fn forest_devices<T>(forest: Seq<DeviceTree<T>>) -> Seq<T>
    decreases forest,
{
    if forest.len() == 0 {
        Seq::empty()
    } else {
        seq![forest[0].device] + forest_devices(forest[0].children@) + forest_devices(
            forest.subrange(1, forest.len() as int),
        )
    }
}

/// The devices of a tree in pre-order.
pub open spec fn tree_devices<T>(tree: DeviceTree<T>) -> Seq<T> {
    forest_devices(seq![tree])
}

/// The devices of `forest`, each tree in pre-order.
fn forest_scan<T>(forest: Vec<DeviceTree<T>>) -> (devices: Vec<T>)
    ensures
        devices@ == forest_devices(forest@),
    decreases forest@,
{
    if forest.len() == 0 {
        return Vec::new();
    }
    let mut forest = forest;
    let ghost whole = forest@;
    let first = forest.remove(0);
    assert(forest@ =~= whole.subrange(1, whole.len() as int));
    let DeviceTree { device, children } = first;
    let mut devices: Vec<T> = Vec::new();
    devices.push(device);
    assert(decreases_to!(whole => whole[0]));
    assert(decreases_to!(whole[0] => whole[0].children));
    let mut below = forest_scan(children);
    devices.append(&mut below);
    let mut rest = forest_scan(forest);
    devices.append(&mut rest);
    devices
}

/// The devices of a device tree, each before the devices it contains: the
/// root first, then each sub-device with what it contains, in order.
pub fn scan_device<T>(tree: DeviceTree<T>) -> (devices: Vec<T>)
    ensures
        devices@ == tree_devices(tree),
{
    let mut forest: Vec<DeviceTree<T>> = Vec::new();
    forest.push(tree);
    assert(forest@ =~= seq![tree]);
    forest_scan(forest)
}

} // verus!
