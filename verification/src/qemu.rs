//! The QEMU command line of the emulated machine, built from its metadata,
//! together with the disk images and firmware copies that the command needs.

use vstd::prelude::*;

use crate::cli::Driver;
use crate::meta::{Drive, DriveType, DriveView, NetworkInterface, NetworkInterfaceView};
use crate::text::{
    counters,
    decimal,
    decimal_string,
    enumerate,
    flat_map,
    lemma_decimal_injective,
    lemma_flat_map_all,
    lemma_flat_map_concat,
    lemma_flat_map_congruent,
    lemma_flat_map_take,
    lemma_trim_end,
    lemma_flat_map_uniform_index,
    trim_end,
    trim_end_matches,
};
use crate::tty_handler::{chardev_args_spec, chardev_ids, chardev_pair, InterfaceConfiguration};
use crate::text::lemma_flat_map_uniform_len;

verus! {

/// A disk image that must exist before QEMU starts.
#[derive(Debug)]
pub struct DiskImage {
    /// Where the image is created.
    pub path: String,
    /// Its size, as `qemu-img create` reads it.
    pub size: String,
}

/// A disk image as plain values.
pub struct DiskImageView {
    pub path: Seq<char>,
    pub size: Seq<char>,
}

impl View for DiskImage {
    type V = DiskImageView;

    open spec fn view(&self) -> DiskImageView {
        DiskImageView { path: self.path@, size: self.size@ }
    }
}

impl DeepView for DiskImage {
    type V = DiskImageView;

    open spec fn deep_view(&self) -> DiskImageView {
        self@
    }
}

/// The drives of the machine: the images to create and the QEMU arguments
/// that attach them.
#[derive(Debug)]
pub struct DrivePlan {
    pub images: Vec<DiskImage>,
    pub args: Vec<String>,
}

/// The identifier of drive number `ctr` of a group: its category and number.
pub open spec fn drive_ident(d: DriveView, ctr: nat) -> Seq<char> {
    d.category + decimal(ctr)
}

/// The image file of drive number `ctr` of a group, in directory `dir`.
pub open spec fn drive_image_path(dir: Seq<char>, d: DriveView, ctr: nat) -> Seq<char> {
    dir + "/"@ + d.category + "-"@ + decimal(ctr) + ".img"@
}

/// The size given to `qemu-img`, which does not accept a trailing `B`
/// (as in `GB`).
pub open spec fn image_size(d: DriveView) -> Seq<char> {
    trim_end(d.size, 'B')
}

/// The device arguments of a drive, by its kind.
pub open spec fn drive_device_args(ty: DriveType, ident: Seq<char>) -> Seq<Seq<char>> {
    let dev_ident = "dev"@ + ident;
    match ty {
        DriveType::Ssd => seq![
            "-device"@,
            "scsi-hd,drive="@ + ident + ",id="@ + dev_ident,
            "-set"@,
            "device."@ + dev_ident + ".rotation_rate=1"@,
        ],
        DriveType::Hdd => seq!["-device"@, "scsi-hd,drive="@ + ident + ",id="@ + dev_ident],
        DriveType::Nvme => seq!["-device"@, "nvme,drive="@ + ident + ",serial="@ + ident],
    }
}

/// The arguments of drive number `ctr` of a group.
pub open spec fn drive_unit_args(dir: Seq<char>, d: DriveView, ctr: nat) -> Seq<Seq<char>> {
    seq![
        "-drive"@,
        "file="@ + drive_image_path(dir, d, ctr) + ",if=none,id="@ + drive_ident(d, ctr),
    ] + drive_device_args(d.ty, drive_ident(d, ctr))
}

/// The arguments of every drive of a group, in order of number.
pub open spec fn drive_group_args(dir: Seq<char>, d: DriveView) -> Seq<Seq<char>> {
    flat_map(counters(d.count), |ctr: nat| drive_unit_args(dir, d, ctr))
}

/// The image of drive number `ctr` of a group.
pub open spec fn drive_unit_image(dir: Seq<char>, d: DriveView, ctr: nat) -> DiskImageView {
    DiskImageView { path: drive_image_path(dir, d, ctr), size: image_size(d) }
}

/// The images of every drive of a group, in order of number.
pub open spec fn drive_group_images(dir: Seq<char>, d: DriveView) -> Seq<DiskImageView> {
    flat_map(counters(d.count), |ctr: nat| seq![drive_unit_image(dir, d, ctr)])
}

/// The drive arguments of the machine: the SCSI controller, then every
/// drive of every group, groups in order.
pub open spec fn drives_args(dir: Seq<char>, drives: Seq<DriveView>) -> Seq<Seq<char>> {
    seq!["-device"@, "virtio-scsi-pci,id=scsi0"@] + flat_map(
        drives,
        |d: DriveView| drive_group_args(dir, d),
    )
}

/// The images of every drive of the machine, groups in order.
pub open spec fn drives_images(dir: Seq<char>, drives: Seq<DriveView>) -> Seq<DiskImageView> {
    flat_map(drives, |d: DriveView| drive_group_images(dir, d))
}

/// The number of drives of the machine: the counts of its groups, summed.
pub open spec fn drive_count(drives: Seq<DriveView>) -> nat
    decreases drives.len(),
{
    if drives.len() == 0 {
        0
    } else {
        drive_count(drives.drop_last()) + drives.last().count
    }
}

/// One image is created for each drive of the machine.
pub proof fn lemma_one_image_per_drive(dir: Seq<char>, drives: Seq<DriveView>)
    ensures
        drives_images(dir, drives).len() == drive_count(drives),
    decreases drives.len(),
{
    if drives.len() > 0 {
        let d = drives.last();
        lemma_one_image_per_drive(dir, drives.drop_last());
        let inner = |ctr: nat| seq![drive_unit_image(dir, d, ctr)];
        assert forall|c: nat| #[trigger] inner(c).len() == 1 by {}
        lemma_flat_map_uniform_len(counters(d.count), inner, 1);
        assert(drive_group_images(dir, d).len() == d.count);
    }
}

/// The drives of two lists together are those of the first list followed by
/// those of the second: the SCSI controller comes once, first, and each group
/// contributes its own arguments and images, in order.
pub proof fn lemma_drives_concat(dir: Seq<char>, a: Seq<DriveView>, b: Seq<DriveView>)
    ensures
        drives_args(dir, a + b) == drives_args(dir, a) + drives_args(dir, b).subrange(
            2,
            drives_args(dir, b).len() as int,
        ),
        drives_images(dir, a + b) == drives_images(dir, a) + drives_images(dir, b),
{
    let g = |d: DriveView| drive_group_args(dir, d);
    let gi = |d: DriveView| drive_group_images(dir, d);
    lemma_flat_map_concat(a, b, g);
    lemma_flat_map_concat(a, b, gi);
    let head = seq!["-device"@, "virtio-scsi-pci,id=scsi0"@];
    assert((head + flat_map(b, g)).subrange(2, (head + flat_map(b, g)).len() as int) =~= flat_map(
        b,
        g,
    ));
    assert(head + (flat_map(a, g) + flat_map(b, g)) =~= (head + flat_map(a, g)) + flat_map(b, g));
}

/// The QEMU arguments of the drives do not depend on their sizes: a size
/// reaches only the images that `qemu-img` creates. Two lists that agree in
/// each group's count, kind and category give the same arguments.
pub proof fn lemma_drive_args_ignore_sizes(dir: Seq<char>, a: Seq<DriveView>, b: Seq<DriveView>)
    requires
        a.len() == b.len(),
        forall|i: int|
            0 <= i < a.len() ==> a[i].count == b[i].count && a[i].ty == b[i].ty && a[i].category
                == b[i].category,
    ensures
        drives_args(dir, a) == drives_args(dir, b),
{
    let g = |d: DriveView| drive_group_args(dir, d);
    assert forall|i: int| 0 <= i < a.len() implies g(a[i]) == g(b[i]) by {
        let da = a[i];
        let db = b[i];
        let fa = |ctr: nat| drive_unit_args(dir, da, ctr);
        let fb = |ctr: nat| drive_unit_args(dir, db, ctr);
        let cs = counters(da.count);
        assert forall|k: int| 0 <= k < cs.len() implies fa(cs[k]) == fb(cs[k]) by {
            assert(drive_ident(da, cs[k]) == drive_ident(db, cs[k]));
            assert(drive_image_path(dir, da, cs[k]) == drive_image_path(dir, db, cs[k]));
        }
        lemma_flat_map_congruent(cs, cs, fa, fb);
    }
    lemma_flat_map_congruent(a, b, g, g);
}

/// How many arguments a drive of the given kind takes: an SSD also has its
/// rotation rate set.
pub open spec fn drive_width(ty: DriveType) -> nat {
    if ty == DriveType::Ssd {
        6
    } else {
        4
    }
}

/// Drive number `ctr` of a group (in decimal, whatever its size) is created
/// as `<dir>/<category>-<ctr>.img` of the group's size without trailing
/// `B`s, and attached in its place after the SCSI controller as
/// `<category><ctr>`: by `scsi-hd` for an SSD or HDD, by `nvme` for an NVMe
/// drive.
pub proof fn lemma_drive_group_layout(dir: Seq<char>, d: DriveView, ctr: nat)
    requires
        ctr < d.count,
    ensures
        drives_args(dir, seq![d]).len() == 2 + drive_width(d.ty) * d.count,
        drives_images(dir, seq![d]).len() == d.count,
        ({
            let w = drive_width(d.ty) as int;
            let k = ctr as int;
            let args = drives_args(dir, seq![d]);
            let path = dir + "/"@ + d.category + "-"@ + decimal(ctr) + ".img"@;
            let id = d.category + decimal(ctr);
            &&& args[0] == "-device"@
            &&& args[1] == "virtio-scsi-pci,id=scsi0"@
            &&& args[2 + w * k] == "-drive"@
            &&& args[2 + w * k + 1] == "file="@ + path + ",if=none,id="@ + id
            &&& args[2 + w * k + 2] == "-device"@
            &&& args[2 + w * k + 3] == (match d.ty {
                DriveType::Nvme => "nvme,drive="@ + id + ",serial="@ + id,
                _ => "scsi-hd,drive="@ + id + ",id="@ + ("dev"@ + id),
            })
            &&& d.ty == DriveType::Ssd ==> args[2 + w * k + 4] == "-set"@ && args[2 + w * k
                + 5] == "device."@ + ("dev"@ + id) + ".rotation_rate=1"@
            &&& drives_images(dir, seq![d])[ctr as int] == DiskImageView {
                path,
                size: trim_end(d.size, 'B'),
            }
        }),
{
    let w = drive_width(d.ty);
    let k = ctr as int;
    let f = |c: nat| drive_unit_args(dir, d, c);
    let fi = |c: nat| seq![drive_unit_image(dir, d, c)];
    let cs = counters(d.count);
    let g = |x: DriveView| drive_group_args(dir, x);
    let gi = |x: DriveView| drive_group_images(dir, x);
    assert forall|c: nat| #[trigger] f(c).len() == w by {}
    assert forall|c: nat| #[trigger] fi(c).len() == 1 by {}
    lemma_flat_map_uniform_len(cs, f, w);
    lemma_flat_map_uniform_len(cs, fi, 1);
    assert(flat_map(seq![d], g) == flat_map(Seq::<DriveView>::empty(), g) + g(d)) by {
        assert(seq![d].drop_last() =~= Seq::<DriveView>::empty());
    }
    assert(flat_map(seq![d], gi) == flat_map(Seq::<DriveView>::empty(), gi) + gi(d)) by {
        assert(seq![d].drop_last() =~= Seq::<DriveView>::empty());
    }
    assert(flat_map(seq![d], g) =~= drive_group_args(dir, d));
    assert(flat_map(seq![d], gi) =~= drive_group_images(dir, d));
    assert(cs[ctr as int] == ctr);
    lemma_flat_map_uniform_index(cs, fi, 1, ctr as int, 0);
    lemma_flat_map_uniform_index(cs, f, w, ctr as int, 0);
    lemma_flat_map_uniform_index(cs, f, w, ctr as int, 1);
    lemma_flat_map_uniform_index(cs, f, w, ctr as int, 2);
    lemma_flat_map_uniform_index(cs, f, w, ctr as int, 3);
    assert(w * d.count == d.count * w) by (nonlinear_arith);
    assert(1 * ctr == ctr);
    if d.ty == DriveType::Ssd {
        lemma_flat_map_uniform_index(cs, f, w, ctr as int, 4);
        lemma_flat_map_uniform_index(cs, f, w, ctr as int, 5);
    }
}

/// Two texts built around two copies of one part differ when the parts do.
proof fn lemma_twice_distinct(p: Seq<char>, x: Seq<char>, y: Seq<char>, q: Seq<char>)
    requires
        x != y,
    ensures
        p + x + q + x != p + y + q + y,
{
    if p + x + q + x == p + y + q + y {
        assert((p + x + q + x).len() == (p + y + q + y).len());
        assert(x.len() == y.len());
        assert forall|k: int| 0 <= k < x.len() implies x[k] == y[k] by {
            assert((p + x + q + x)[p.len() + k] == x[k]);
            assert((p + y + q + y)[p.len() + k] == y[k]);
        }
        assert(x =~= y);
    }
}

/// The drives of a group get distinct ids and distinct image files: two
/// different drive numbers are never attached under the same id.
pub proof fn lemma_drive_ids_distinct(dir: Seq<char>, d: DriveView, c1: nat, c2: nat)
    requires
        c1 < d.count,
        c2 < d.count,
        c1 != c2,
    ensures
        drives_args(dir, seq![d])[2 + drive_width(d.ty) as int * c1 as int + 1] != drives_args(
            dir,
            seq![d],
        )[2 + drive_width(d.ty) as int * c2 as int + 1],
        drives_images(dir, seq![d])[c1 as int].path != drives_images(dir, seq![d])[c2 as int].path,
        d.category + decimal(c1) != d.category + decimal(c2),
{
    lemma_drive_group_layout(dir, d, c1);
    lemma_drive_group_layout(dir, d, c2);
    if decimal(c1) == decimal(c2) {
        lemma_decimal_injective(c1, c2);
    }
    let p = "file="@ + dir + "/"@ + d.category + "-"@;
    let q = ".img"@ + ",if=none,id="@ + d.category;
    lemma_twice_distinct(p, decimal(c1), decimal(c2), q);
    assert("file="@ + (dir + "/"@ + d.category + "-"@ + decimal(c1) + ".img"@) + ",if=none,id="@
        + (d.category + decimal(c1)) =~= p + decimal(c1) + q + decimal(c1));
    assert("file="@ + (dir + "/"@ + d.category + "-"@ + decimal(c2) + ".img"@) + ",if=none,id="@
        + (d.category + decimal(c2)) =~= p + decimal(c2) + q + decimal(c2));
    lemma_middle_distinct(dir + "/"@ + d.category + "-"@, decimal(c1), decimal(c2), ".img"@);
    lemma_middle_distinct(d.category, decimal(c1), decimal(c2), Seq::<char>::empty());
    assert(d.category + decimal(c1) + Seq::<char>::empty() =~= d.category + decimal(c1));
    assert(d.category + decimal(c2) + Seq::<char>::empty() =~= d.category + decimal(c2));
}

/// No image is created with a size that ends in `B`, which `qemu-img` does
/// not accept.
pub proof fn lemma_image_sizes_without_unit(dir: Seq<char>, drives: Seq<DriveView>, k: int)
    requires
        0 <= k < drives_images(dir, drives).len(),
    ensures
        drives_images(dir, drives)[k].size.len() == 0 || drives_images(dir, drives)[k].size.last()
            != 'B',
{
    let p = |img: DiskImageView| img.size.len() == 0 || img.size.last() != 'B';
    let outer = |d: DriveView| drive_group_images(dir, d);
    assert forall|d: DriveView, i: int| 0 <= i < outer(d).len() implies #[trigger] p(
        outer(d)[i],
    ) by {
        let inner = |ctr: nat| seq![drive_unit_image(dir, d, ctr)];
        let q = |img: DiskImageView| img.size == image_size(d);
        assert forall|c: nat, j: int| 0 <= j < inner(c).len() implies #[trigger] q(
            inner(c)[j],
        ) by {}
        lemma_flat_map_all(counters(d.count), inner, q);
        assert(q(outer(d)[i]));
        lemma_trim_end(d.size, 'B');
    }
    lemma_flat_map_all(drives, outer, p);
    assert(p(drives_images(dir, drives)[k]));
}

/// The arguments of one drive.
fn drive_unit(temp_dir: &str, drive: &Drive, ctr: usize) -> (args: Vec<String>)
    ensures
        args.deep_view() == drive_unit_args(temp_dir@, drive@, ctr as nat),
{
    let num = decimal_string(ctr);
    let outfile = temp_dir.to_owned().concat("/").concat(drive.category.as_str()).concat(
        "-",
    ).concat(num.as_str()).concat(".img");
    let ident = drive.category.clone().concat(num.as_str());
    let dev_ident = "dev".to_owned().concat(ident.as_str());
    let mut args: Vec<String> = Vec::new();
    args.push("-drive".to_owned());
    args.push("file=".to_owned().concat(outfile.as_str()).concat(",if=none,id=").concat(ident.as_str()));
    match drive.ty {
        DriveType::Ssd => {
            args.push("-device".to_owned());
            args.push(
                "scsi-hd,drive=".to_owned().concat(ident.as_str()).concat(",id=").concat(
                    dev_ident.as_str(),
                ),
            );
            args.push("-set".to_owned());
            args.push("device.".to_owned().concat(dev_ident.as_str()).concat(".rotation_rate=1"));
        },
        DriveType::Hdd => {
            args.push("-device".to_owned());
            args.push(
                "scsi-hd,drive=".to_owned().concat(ident.as_str()).concat(",id=").concat(
                    dev_ident.as_str(),
                ),
            );
        },
        DriveType::Nvme => {
            args.push("-device".to_owned());
            args.push(
                "nvme,drive=".to_owned().concat(ident.as_str()).concat(",serial=").concat(
                    ident.as_str(),
                ),
            );
        },
    }
    assert(args.deep_view() =~= drive_unit_args(temp_dir@, drive@, ctr as nat));
    args
}

/// Plans the drives of the machine: for every drive of every group, in
/// order, the image file `<temp_dir>/<category>-<n>.img` of the group's size
/// without its trailing `B`s, and the QEMU arguments that attach it as
/// `<category><n>` behind a virtio SCSI controller.
pub fn drive_plan(drives: &Vec<Drive>, temp_dir: &str) -> (plan: DrivePlan)
    ensures
        plan.args.deep_view() == drives_args(temp_dir@, drives.deep_view()),
        plan.images.deep_view() == drives_images(temp_dir@, drives.deep_view()),
{
    let ghost dir = temp_dir@;
    let ghost ds = drives.deep_view();
    let ghost g = |d: DriveView| drive_group_args(dir, d);
    let ghost gi = |d: DriveView| drive_group_images(dir, d);
    let mut args: Vec<String> = Vec::new();
    args.push("-device".to_owned());
    args.push("virtio-scsi-pci,id=scsi0".to_owned());
    let ghost head = args.deep_view();
    let mut images: Vec<DiskImage> = Vec::new();
    let mut di: usize = 0;
    while di < drives.len()
        invariant
            ds == drives.deep_view(),
            dir == temp_dir@,
            g == (|d: DriveView| drive_group_args(dir, d)),
            gi == (|d: DriveView| drive_group_images(dir, d)),
            head == seq!["-device"@, "virtio-scsi-pci,id=scsi0"@],
            di <= drives.len(),
            args.deep_view() == head + flat_map(ds.take(di as int), g),
            images.deep_view() == flat_map(ds.take(di as int), gi),
        decreases drives.len() - di,
    {
        let drive = &drives[di];
        let ghost d = drive@;
        assert(d == ds[di as int]);
        let size = trim_end_matches(drive.size.as_str(), 'B');
        let ghost f = |ctr: nat| drive_unit_args(dir, d, ctr);
        let ghost fi = |ctr: nat| seq![drive_unit_image(dir, d, ctr)];
        let ghost before = args.deep_view();
        let ghost before_images = images.deep_view();
        let ghost cs = counters(d.count);
        let count = drive.count;
        let mut ctr: usize = 0;
        while ctr < count
            invariant
                d == drive@,
                count == d.count,
                cs == counters(d.count),
                dir == temp_dir@,
                size@ == image_size(d),
                f == (|ctr: nat| drive_unit_args(dir, d, ctr)),
                fi == (|ctr: nat| seq![drive_unit_image(dir, d, ctr)]),
                ctr <= count,
                args.deep_view() == before + flat_map(cs.take(ctr as int), f),
                images.deep_view() == before_images + flat_map(cs.take(ctr as int), fi),
            decreases count - ctr,
        {
            let num = decimal_string(ctr);
            let path = temp_dir.to_owned().concat("/").concat(drive.category.as_str()).concat(
                "-",
            ).concat(num.as_str()).concat(".img");
            let ghost old_args = args.deep_view();
            let ghost old_images = images.deep_view();
            images.push(DiskImage { path, size: size.clone() });
            let mut unit = drive_unit(temp_dir, drive, ctr);
            args.append(&mut unit);
            proof {
                lemma_flat_map_take(cs, ctr as int, f);
                lemma_flat_map_take(cs, ctr as int, fi);
                assert(cs[ctr as int] == ctr as nat);
                assert(images.deep_view() =~= old_images.push(drive_unit_image(dir, d, ctr as nat)));
                assert(images.deep_view() =~= before_images + flat_map(cs.take(ctr + 1), fi));
                assert(args.deep_view() =~= old_args + drive_unit_args(dir, d, ctr as nat));
                assert(args.deep_view() =~= before + flat_map(cs.take(ctr + 1), f));
            }
            ctr = ctr + 1;
        }
        proof {
            assert(cs.take(count as int) =~= cs);
            lemma_flat_map_take(ds, di as int, g);
            lemma_flat_map_take(ds, di as int, gi);
            assert(args.deep_view() =~= head + flat_map(ds.take(di + 1), g));
            assert(images.deep_view() =~= flat_map(ds.take(di + 1), gi));
        }
        di = di + 1;
    }
    proof {
        assert(ds.take(drives.len() as int) =~= ds);
    }
    DrivePlan { images, args }
}

/// The arguments of `qemu-img` that create an image.
pub open spec fn image_create_args(image: DiskImageView) -> Seq<Seq<char>> {
    seq!["create"@, "-f"@, "qcow2"@, image.path, image.size]
}

/// The arguments of `qemu-img` that create `image` as a qcow2 file.
pub fn qemu_img_args(image: &DiskImage) -> (args: Vec<String>)
    ensures
        args.deep_view() == image_create_args(image@),
{
    let mut args: Vec<String> = Vec::new();
    args.push("create".to_owned());
    args.push("-f".to_owned());
    args.push("qcow2".to_owned());
    args.push(image.path.clone());
    args.push(image.size.clone());
    assert(args.deep_view() =~= image_create_args(image@));
    args
}

/// The arguments that share the metadata directory with the guest, read
/// only, under the tag `metadata_api_stub`.
pub open spec fn metadata_args_spec(dir: Seq<char>) -> Seq<Seq<char>> {
    seq![
        "-virtfs"@,
        "local,id=metadata_api_stub,security_model=none,path="@ + dir
            + ",readonly=on,mount_tag=metadata_api_stub"@,
    ]
}

/// The arguments that share `metadata_api_dir` (which holds the machine's
/// `metadata.json`) with the guest.
pub fn metadata_args(metadata_api_dir: &str) -> (args: Vec<String>)
    ensures
        args.deep_view() == metadata_args_spec(metadata_api_dir@),
{
    let mut args: Vec<String> = Vec::new();
    args.push("-virtfs".to_owned());
    args.push(
        "local,id=metadata_api_stub,security_model=none,path=".to_owned().concat(
            metadata_api_dir,
        ).concat(",readonly=on,mount_tag=metadata_api_stub"),
    );
    assert(args.deep_view() =~= metadata_args_spec(metadata_api_dir@));
    args
}

/// The name of the tap device of interface number `i`.
pub open spec fn netdev_id(i: nat) -> Seq<char> {
    "netdev"@ + decimal(i)
}

/// The tap device of interface number `i`, brought up and down by the two
/// scripts.
pub open spec fn tap_netdev(i: nat, up: Seq<char>, down: Seq<char>) -> Seq<char> {
    "tap,id="@ + netdev_id(i) + ",script="@ + up + ",downscript="@ + down
}

/// The arguments of interface number `i`: its tap device, and a virtio NIC
/// with the interface's MAC address on that device.
pub open spec fn interface_unit_args(
    i: nat,
    iface: NetworkInterfaceView,
    up: Seq<char>,
    down: Seq<char>,
) -> Seq<Seq<char>> {
    seq![
        "-netdev"@,
        tap_netdev(i, up, down),
        "-device"@,
        "virtio-net-pci,netdev="@ + netdev_id(i) + ",mac="@ + iface.mac,
    ]
}

/// The arguments of every interface, in order.
pub open spec fn interfaces_args(
    ifaces: Seq<NetworkInterfaceView>,
    up: Seq<char>,
    down: Seq<char>,
) -> Seq<Seq<char>> {
    flat_map(
        enumerate(ifaces),
        |e: (nat, NetworkInterfaceView)| interface_unit_args(e.0, e.1, up, down),
    )
}

/// The network arguments of the machine: for interface number `i`, a tap
/// device `netdev<i>` run by the scripts `network_up` and `network_down`,
/// and a virtio NIC on it with the interface's MAC address.
pub fn interface_args(
    interfaces: &Vec<NetworkInterface>,
    network_up: &str,
    network_down: &str,
) -> (args: Vec<String>)
    ensures
        args.deep_view() == interfaces_args(interfaces.deep_view(), network_up@, network_down@),
{
    let ghost es = enumerate(interfaces.deep_view());
    let ghost f = |e: (nat, NetworkInterfaceView)|
        interface_unit_args(e.0, e.1, network_up@, network_down@);
    let mut args: Vec<String> = Vec::new();
    let mut i: usize = 0;
    while i < interfaces.len()
        invariant
            es == enumerate(interfaces.deep_view()),
            f == (|e: (nat, NetworkInterfaceView)|
                interface_unit_args(e.0, e.1, network_up@, network_down@)),
            i <= interfaces.len(),
            args.deep_view() == flat_map(es.take(i as int), f),
        decreases interfaces.len() - i,
    {
        let netdev = "netdev".to_owned().concat(decimal_string(i).as_str());
        let ghost old_args = args.deep_view();
        args.push("-netdev".to_owned());
        args.push(
            "tap,id=".to_owned().concat(netdev.as_str()).concat(",script=").concat(
                network_up,
            ).concat(",downscript=").concat(network_down),
        );
        args.push("-device".to_owned());
        args.push(
            "virtio-net-pci,netdev=".to_owned().concat(netdev.as_str()).concat(",mac=").concat(
                interfaces[i].mac.as_str(),
            ),
        );
        proof {
            lemma_flat_map_take(es, i as int, f);
            assert(es[i as int] == (i as nat, interfaces[i as int]@));
            assert(args.deep_view() =~= old_args + interface_unit_args(
                i as nat,
                interfaces[i as int]@,
                network_up@,
                network_down@,
            ));
        }
        i = i + 1;
    }
    proof {
        assert(es.take(interfaces.len() as int) =~= es);
    }
    args
}

/// Every interface, however many there are (one included), contributes
/// four arguments in its place: interface `i` gets the tap device
/// `netdev<i>` (`i` in decimal) run by the two scripts, and a virtio NIC with
/// its MAC address on that device.
pub proof fn lemma_interface_args_layout(
    ifaces: Seq<NetworkInterfaceView>,
    up: Seq<char>,
    down: Seq<char>,
)
    ensures
        interfaces_args(ifaces, up, down).len() == 4 * ifaces.len(),
        forall|i: int|
            #![trigger ifaces[i]]
            0 <= i < ifaces.len() ==> interfaces_args(ifaces, up, down).subrange(4 * i, 4 * i + 4)
                == seq![
                "-netdev"@,
                "tap,id="@ + ("netdev"@ + decimal(i as nat)) + ",script="@ + up + ",downscript="@
                    + down,
                "-device"@,
                "virtio-net-pci,netdev="@ + ("netdev"@ + decimal(i as nat)) + ",mac="@
                    + ifaces[i].mac,
            ],
{
    let f = |e: (nat, NetworkInterfaceView)| interface_unit_args(e.0, e.1, up, down);
    let es = enumerate(ifaces);
    assert forall|e: (nat, NetworkInterfaceView)| #[trigger] f(e).len() == 4 by {}
    lemma_flat_map_uniform_len(es, f, 4);
    assert(4 * ifaces.len() == ifaces.len() * 4) by (nonlinear_arith);
    assert forall|i: int| #![trigger ifaces[i]] 0 <= i < ifaces.len() implies interfaces_args(
        ifaces,
        up,
        down,
    ).subrange(4 * i, 4 * i + 4) == seq![
        "-netdev"@,
        "tap,id="@ + ("netdev"@ + decimal(i as nat)) + ",script="@ + up + ",downscript="@ + down,
        "-device"@,
        "virtio-net-pci,netdev="@ + ("netdev"@ + decimal(i as nat)) + ",mac="@ + ifaces[i].mac,
    ] by {
        assert(es[i] == (i as nat, ifaces[i]));
        lemma_flat_map_uniform_index(es, f, 4, i, 0);
        lemma_flat_map_uniform_index(es, f, 4, i, 1);
        lemma_flat_map_uniform_index(es, f, 4, i, 2);
        lemma_flat_map_uniform_index(es, f, 4, i, 3);
        assert(4 * i + 4 <= 4 * ifaces.len());
        assert(interfaces_args(ifaces, up, down).subrange(4 * i, 4 * i + 4) =~= seq![
            "-netdev"@,
            "tap,id="@ + ("netdev"@ + decimal(i as nat)) + ",script="@ + up + ",downscript="@
                + down,
            "-device"@,
            "virtio-net-pci,netdev="@ + ("netdev"@ + decimal(i as nat)) + ",mac="@ + ifaces[i].mac,
        ]);
    }
}

/// The network arguments read only the interfaces' MAC addresses, and their
/// number: names and bonds do not reach QEMU.
pub proof fn lemma_interface_args_read_only_macs(
    a: Seq<NetworkInterfaceView>,
    b: Seq<NetworkInterfaceView>,
    up: Seq<char>,
    down: Seq<char>,
)
    requires
        a.len() == b.len(),
        forall|i: int| 0 <= i < a.len() ==> a[i].mac == b[i].mac,
    ensures
        interfaces_args(a, up, down) == interfaces_args(b, up, down),
{
    let f = |e: (nat, NetworkInterfaceView)| interface_unit_args(e.0, e.1, up, down);
    let ea = enumerate(a);
    let eb = enumerate(b);
    assert forall|i: int| 0 <= i < ea.len() implies f(ea[i]) == f(eb[i]) by {
        assert(ea[i] == (i as nat, a[i]));
        assert(eb[i] == (i as nat, b[i]));
    }
    lemma_flat_map_congruent(ea, eb, f, f);
}

/// Two texts that share a prefix and a suffix are equal only if what lies
/// between them is.
proof fn lemma_middle_distinct(a: Seq<char>, x: Seq<char>, y: Seq<char>, b: Seq<char>)
    requires
        x != y,
    ensures
        a + x + b != a + y + b,
{
    if a + x + b == a + y + b {
        assert((a + x + b).len() == (a + y + b).len());
        assert(x.len() == y.len());
        assert forall|k: int| 0 <= k < x.len() implies x[k] == y[k] by {
            assert((a + x + b)[a.len() + k] == x[k]);
            assert((a + y + b)[a.len() + k] == y[k]);
        }
        assert(x =~= y);
    }
}

/// Every interface gets a tap device of its own: the devices of two
/// different interfaces differ, and each interface's NIC is attached to its
/// own device.
pub proof fn lemma_interfaces_have_own_netdevs(
    ifaces: Seq<NetworkInterfaceView>,
    up: Seq<char>,
    down: Seq<char>,
    i: int,
    j: int,
)
    requires
        0 <= i < ifaces.len(),
        0 <= j < ifaces.len(),
        i != j,
    ensures
        interfaces_args(ifaces, up, down)[4 * i + 1] == tap_netdev(i as nat, up, down),
        interfaces_args(ifaces, up, down)[4 * i + 3] == "virtio-net-pci,netdev="@ + netdev_id(
            i as nat,
        ) + ",mac="@ + ifaces[i].mac,
        interfaces_args(ifaces, up, down)[4 * i + 1] != interfaces_args(ifaces, up, down)[4 * j
            + 1],
{
    let f = |e: (nat, NetworkInterfaceView)| interface_unit_args(e.0, e.1, up, down);
    let es = enumerate(ifaces);
    assert forall|e: (nat, NetworkInterfaceView)| #[trigger] f(e).len() == 4 by {}
    lemma_flat_map_uniform_index(es, f, 4, i, 1);
    lemma_flat_map_uniform_index(es, f, 4, i, 3);
    lemma_flat_map_uniform_index(es, f, 4, j, 1);
    assert(es[i] == (i as nat, ifaces[i]));
    assert(es[j] == (j as nat, ifaces[j]));
    if decimal(i as nat) == decimal(j as nat) {
        lemma_decimal_injective(i as nat, j as nat);
    }
    let tail = ",script="@ + up + ",downscript="@ + down;
    let head = "tap,id="@ + "netdev"@;
    lemma_middle_distinct(head, decimal(i as nat), decimal(j as nat), tail);
    assert(tap_netdev(i as nat, up, down) =~= head + decimal(i as nat) + tail);
    assert(tap_netdev(j as nat, up, down) =~= head + decimal(j as nat) + tail);
}

/// The firmware that UEFI booting needs: the files to copy beside the
/// machine, and the arguments that load them as flash.
#[derive(Debug)]
pub struct UefiPlan {
    /// Pairs of source and destination paths.
    pub copies: Vec<(String, String)>,
    pub args: Vec<String>,
}

/// The message of a UEFI machine when `OVMF_PATH` is not set.
pub open spec fn missing_ovmf_message() -> Seq<char> {
    "OVMF_PATH was not present, but is required due to UEFI booting"@
}

/// The firmware copies of a UEFI machine, from the OVMF installation `ovmf`.
pub open spec fn uefi_copies_spec(ovmf: Seq<char>, code: Seq<char>, vars: Seq<char>) -> Seq<
    (Seq<char>, Seq<char>),
> {
    seq![(ovmf + "/FV/OVMF_CODE.fd"@, code), (ovmf + "/FV/OVMF_VARS.fd"@, vars)]
}

/// The flash arguments of a UEFI machine: the code read only, the variables
/// writable.
pub open spec fn uefi_args_spec(code: Seq<char>, vars: Seq<char>) -> Seq<Seq<char>> {
    seq![
        "-drive"@,
        "if=pflash,format=raw,file="@ + code + ",readonly=on"@,
        "-drive"@,
        "if=pflash,format=raw,file="@ + vars,
    ]
}

/// Plans the firmware of the machine. A machine without UEFI needs none. A
/// UEFI machine needs the OVMF installation named by `OVMF_PATH`
/// (`ovmf_path`): its code and variable files are copied to `ovmf_code` and
/// `ovmf_vars` and loaded from there; without it the plan is refused.
pub fn uefi_plan(uefi: bool, ovmf_path: Option<String>, ovmf_code: &str, ovmf_vars: &str) -> (r:
    Result<UefiPlan, String>)
    ensures
        !uefi ==> (r matches Ok(p) && p.copies@.len() == 0 && p.args@.len() == 0),
        uefi && ovmf_path is None ==> (r matches Err(e) && e@ == missing_ovmf_message()),
        uefi && ovmf_path is Some ==> (r matches Ok(p) && p.copies@.map_values(
            |c: (String, String)| (c.0@, c.1@),
        ) == uefi_copies_spec(ovmf_path->0@, ovmf_code@, ovmf_vars@) && p.args.deep_view()
            == uefi_args_spec(ovmf_code@, ovmf_vars@)),
{
    if !uefi {
        return Ok(UefiPlan { copies: Vec::new(), args: Vec::new() });
    }
    match ovmf_path {
        None => Err(
            "OVMF_PATH was not present, but is required due to UEFI booting".to_owned(),
        ),
        Some(ovmf) => {
            let mut copies: Vec<(String, String)> = Vec::new();
            copies.push((ovmf.clone().concat("/FV/OVMF_CODE.fd"), ovmf_code.to_owned()));
            copies.push((ovmf.concat("/FV/OVMF_VARS.fd"), ovmf_vars.to_owned()));
            let mut args: Vec<String> = Vec::new();
            args.push("-drive".to_owned());
            args.push(
                "if=pflash,format=raw,file=".to_owned().concat(ovmf_code).concat(",readonly=on"),
            );
            args.push("-drive".to_owned());
            args.push("if=pflash,format=raw,file=".to_owned().concat(ovmf_vars));
            assert(copies@.map_values(|c: (String, String)| (c.0@, c.1@)) =~= uefi_copies_spec(
                ovmf_path->0@,
                ovmf_code@,
                ovmf_vars@,
            ));
            assert(args.deep_view() =~= uefi_args_spec(ovmf_code@, ovmf_vars@));
            Ok(UefiPlan { copies, args })
        },
    }
}

/// The console driver that the command line asks for: output that is not a
/// terminal, or the non-interactive flag, makes it read-only; otherwise the
/// manual flag picks the manual driver, and tmux is the default.
pub fn choose_driver(non_interactive: bool, stdout_is_tty: bool, manual: bool) -> (d: Driver)
    ensures
        d == (if non_interactive || !stdout_is_tty {
            Driver::ReadOnly
        } else if manual {
            Driver::Manual
        } else {
            Driver::Tmux
        }),
{
    if non_interactive || !stdout_is_tty {
        Driver::ReadOnly
    } else if manual {
        Driver::Manual
    } else {
        Driver::Tmux
    }
}

/// The id of the monitor's character device.
pub open spec fn console_monitor() -> Seq<char> {
    "mon0"@
}

/// The ids of the serial ports' character devices: the first carries the
/// boot output, the second the interactive console.
pub open spec fn console_serials() -> Seq<Seq<char>> {
    seq!["ttyS0"@, "ttyS1"@]
}

/// The character devices that the machine's command line attaches.
pub fn console_interface() -> (c: InterfaceConfiguration)
    ensures
        c.monitor@ == console_monitor(),
        c.serials.deep_view() == console_serials(),
{
    let mut serials: Vec<String> = Vec::new();
    serials.push("ttyS0".to_owned());
    serials.push("ttyS1".to_owned());
    assert(serials.deep_view() =~= console_serials());
    InterfaceConfiguration { monitor: "mon0".to_owned(), serials }
}

/// The machine: a q35 board with SMM, 16 GiB of memory and the host's CPU
/// model, without graphics, paused until it is told to run.
pub open spec fn machine_args() -> Seq<Seq<char>> {
    seq!["-S"@, "-nographic"@, "-machine"@, "q35,smm=on"@, "-m"@, "16G"@, "-cpu"@, "max"@]
}

/// The consoles: the two serial ports and the monitor on their character
/// devices, timestamped messages, and the QMP socket `qmp_socket` that the
/// launcher drives QEMU through.
pub open spec fn console_args(qmp_socket: Seq<char>) -> Seq<Seq<char>> {
    seq![
        "-serial"@,
        "chardev:"@ + console_serials()[0],
        "-serial"@,
        "chardev:"@ + console_serials()[1],
        "-mon"@,
        "chardev="@ + console_monitor(),
        "-msg"@,
        "timestamp=on"@,
        "-qmp"@,
        "unix:"@ + qmp_socket + ",server=on,wait=off"@,
    ]
}

/// The whole command line, in order.
pub open spec fn qemu_args_spec(
    handler: Seq<Seq<char>>,
    qmp_socket: Seq<char>,
    metadata: Seq<Seq<char>>,
    interfaces: Seq<Seq<char>>,
    drives: Seq<Seq<char>>,
    uefi: Seq<Seq<char>>,
) -> Seq<Seq<char>> {
    machine_args() + handler + console_args(qmp_socket) + metadata + interfaces + drives + uefi
}

/// The arguments of `qemu-kvm`: the machine, the character devices of the
/// console driver (`handler_args`), the consoles and the QMP socket, then
/// the metadata share, the network, the drives and the firmware.
pub fn qemu_command_args(
    handler_args: Vec<String>,
    qmp_socket: &str,
    metadata: Vec<String>,
    interfaces: Vec<String>,
    drives: Vec<String>,
    uefi: Vec<String>,
) -> (args: Vec<String>)
    ensures
        args.deep_view() == qemu_args_spec(
            handler_args.deep_view(),
            qmp_socket@,
            metadata.deep_view(),
            interfaces.deep_view(),
            drives.deep_view(),
            uefi.deep_view(),
        ),
{
    let mut handler_args = handler_args;
    let mut metadata = metadata;
    let mut interfaces = interfaces;
    let mut drives = drives;
    let mut uefi = uefi;
    let ghost h = handler_args.deep_view();
    let ghost md = metadata.deep_view();
    let ghost ifs = interfaces.deep_view();
    let ghost dr = drives.deep_view();
    let ghost ue = uefi.deep_view();
    let mut args: Vec<String> = Vec::new();
    args.push("-S".to_owned());
    args.push("-nographic".to_owned());
    args.push("-machine".to_owned());
    args.push("q35,smm=on".to_owned());
    args.push("-m".to_owned());
    args.push("16G".to_owned());
    args.push("-cpu".to_owned());
    args.push("max".to_owned());
    assert(args.deep_view() =~= machine_args());
    args.append(&mut handler_args);
    assert(args.deep_view() =~= machine_args() + h);
    let ghost before = args.deep_view();
    args.push("-serial".to_owned());
    args.push("chardev:".to_owned().concat("ttyS0"));
    args.push("-serial".to_owned());
    args.push("chardev:".to_owned().concat("ttyS1"));
    args.push("-mon".to_owned());
    args.push("chardev=".to_owned().concat("mon0"));
    args.push("-msg".to_owned());
    args.push("timestamp=on".to_owned());
    args.push("-qmp".to_owned());
    args.push("unix:".to_owned().concat(qmp_socket).concat(",server=on,wait=off"));
    assert(args.deep_view() =~= before + console_args(qmp_socket@));
    args.append(&mut metadata);
    assert(args.deep_view() =~= before + console_args(qmp_socket@) + md);
    args.append(&mut interfaces);
    assert(args.deep_view() =~= before + console_args(qmp_socket@) + md + ifs);
    args.append(&mut drives);
    assert(args.deep_view() =~= before + console_args(qmp_socket@) + md + ifs + dr);
    args.append(&mut uefi);
    assert(args.deep_view() =~= before + console_args(qmp_socket@) + md + ifs + dr + ue);
    args
}

/// The command line is its parts, each whole and unchanged, in order: the
/// eight machine arguments, the driver's character devices, the ten console
/// and QMP arguments, then the metadata share, every network argument,
/// every drive argument and every firmware argument.
pub proof fn lemma_qemu_args_layout(
    handler: Seq<Seq<char>>,
    qmp_socket: Seq<char>,
    metadata: Seq<Seq<char>>,
    interfaces: Seq<Seq<char>>,
    drives: Seq<Seq<char>>,
    uefi: Seq<Seq<char>>,
)
    ensures
        ({
            let args = qemu_args_spec(handler, qmp_socket, metadata, interfaces, drives, uefi);
            let h: int = 8 + handler.len() as int;
            let m: int = h + 10;
            let n: int = m + metadata.len();
            let dr: int = n + interfaces.len();
            let ue: int = dr + drives.len();
            &&& args.len() == 18 + handler.len() + metadata.len() + interfaces.len()
                + drives.len() + uefi.len()
            &&& args.subrange(0, 8) == seq![
                "-S"@,
                "-nographic"@,
                "-machine"@,
                "q35,smm=on"@,
                "-m"@,
                "16G"@,
                "-cpu"@,
                "max"@,
            ]
            &&& args.subrange(8, h) == handler
            &&& args.subrange(h, m) == seq![
                "-serial"@,
                "chardev:"@ + "ttyS0"@,
                "-serial"@,
                "chardev:"@ + "ttyS1"@,
                "-mon"@,
                "chardev="@ + "mon0"@,
                "-msg"@,
                "timestamp=on"@,
                "-qmp"@,
                "unix:"@ + qmp_socket + ",server=on,wait=off"@,
            ]
            &&& args.subrange(m, n) == metadata
            &&& args.subrange(n, dr) == interfaces
            &&& args.subrange(dr, ue) == drives
            &&& args.subrange(ue, args.len() as int) == uefi
        }),
{
    let args = qemu_args_spec(handler, qmp_socket, metadata, interfaces, drives, uefi);
    let h: int = 8 + handler.len() as int;
    let m: int = h + 10;
    let n: int = m + metadata.len();
    let dr: int = n + interfaces.len();
    let ue: int = dr + drives.len();
    assert(args.subrange(0, 8) =~= machine_args());
    assert(args.subrange(8, h) =~= handler);
    assert(args.subrange(h, m) =~= console_args(qmp_socket));
    assert(args.subrange(m, n) =~= metadata);
    assert(args.subrange(n, dr) =~= interfaces);
    assert(args.subrange(dr, ue) =~= drives);
    assert(args.subrange(ue, args.len() as int) =~= uefi);
}

/// Every console that the command line attaches is a character device that
/// the console driver defines: driver arguments built for
/// [`console_interface`] define, each behind a `-chardev`, the monitor and
/// the two serial ports, and [`console_args`] attach exactly those ids.
pub proof fn lemma_console_devices_defined(prefix: Seq<char>, suffix: Seq<char>, qmp_socket: Seq<char>)
    ensures
        chardev_args_spec(prefix, suffix, chardev_ids(console_monitor(), console_serials())) == seq![
            "-chardev"@,
            prefix + console_monitor() + suffix,
            "-chardev"@,
            prefix + console_serials()[0] + suffix,
            "-chardev"@,
            prefix + console_serials()[1] + suffix,
        ],
        console_args(qmp_socket)[1] == "chardev:"@ + console_serials()[0],
        console_args(qmp_socket)[3] == "chardev:"@ + console_serials()[1],
        console_args(qmp_socket)[5] == "chardev="@ + console_monitor(),
{
    let ids = chardev_ids(console_monitor(), console_serials());
    let f = chardev_pair(prefix, suffix);
    assert forall|id: Seq<char>| #[trigger] f(id).len() == 2 by {}
    lemma_flat_map_uniform_len(ids, f, 2);
    lemma_flat_map_uniform_index(ids, f, 2, 0, 0);
    lemma_flat_map_uniform_index(ids, f, 2, 0, 1);
    lemma_flat_map_uniform_index(ids, f, 2, 1, 0);
    lemma_flat_map_uniform_index(ids, f, 2, 1, 1);
    lemma_flat_map_uniform_index(ids, f, 2, 2, 0);
    lemma_flat_map_uniform_index(ids, f, 2, 2, 1);
    assert(chardev_args_spec(prefix, suffix, ids) =~= seq![
        "-chardev"@,
        prefix + console_monitor() + suffix,
        "-chardev"@,
        prefix + console_serials()[0] + suffix,
        "-chardev"@,
        prefix + console_serials()[1] + suffix,
    ]);
}

} // verus!
