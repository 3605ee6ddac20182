//! The PCI passthrough section of a VM's launch script: generated from the
//! selected devices, and removed again when the selection changes.

use vstd::prelude::*;
use super::pci::{first_vga_index, generate_passthrough_args, passthrough_args_of, PciDevice};
use crate::text::{
    chars_of, join, join_strings, lines, lines_of, replace_all, replace_str,
    slice_range, str_eq, string_of, trim, trim_ws, views,
};

verus! {

/// First line of the managed section.
pub const PCI_MARKER_START: &'static str = "# >>> PCI Passthrough (managed by vm-curator) >>>";

/// Last line of the managed section.
pub const PCI_MARKER_END: &'static str = "# <<< PCI Passthrough <<<";

/// The shell code of the section after its variables: optional tracing, a
/// log file, privilege escalation, binding every device to vfio-pci (a GPU
/// is first released by its driver, every unbind runs under `timeout` with a
/// remove-and-rescan fallback, and the boot VGA device is refused), and
/// restoring the original drivers on exit.
pub const PCI_SCRIPT_BODY: &'static str = r#"# Set VM_CURATOR_DEBUG=1 to trace every sysfs write done during VFIO binding.
if [[ "${VM_CURATOR_DEBUG:-0}" == "1" ]]; then
    set -x
fi

# Binding diagnostics are appended here; the TUI does not keep stdout.
PCI_LOG="${VM_DIR:-$(dirname "$(readlink -f "$0")")}/passthrough.log"

_pci_elevated() {
    if [[ $EUID -eq 0 ]]; then
        sh -c "$1"
    elif command -v pkexec >/dev/null 2>&1; then
        pkexec sh -c "$1"
    elif command -v sudo >/dev/null 2>&1; then
        sudo sh -c "$1"
    else
        echo "Error: Root privileges required to bind PCI devices to vfio-pci" >&2
        echo "Install polkit (pkexec) or run with sudo" >&2
        return 1
    fi
}
_wait_driver() {
    local dev="$1"
    local target="$2"
    local timeout_tenths="${3:-50}"
    local i=0
    while (( i < timeout_tenths )); do
        local link="/sys/bus/pci/devices/$dev/driver"
        if [[ -L "$link" ]] && [[ "$(basename "$(readlink "$link")")" == "$target" ]]; then
            return 0
        fi
        sleep 0.1
        i=$((i + 1))
    done
    return 1
}
bind_vfio() {
    local bind_cmds=""
    local need_bind=0
    for dev in "${PCI_DEVICES[@]}"; do
        local dev_path="/sys/bus/pci/devices/$dev"
        local driver_link="$dev_path/driver"
        if [[ ! -d "$dev_path" ]]; then
            echo "Warning: PCI device $dev not found, skipping" >&2
            continue
        fi
        if [[ "$(cat "$dev_path/boot_vga" 2>/dev/null)" == "1" ]]; then
            echo "Error: $dev is the boot VGA device, which drives the current display." >&2
            echo "Unbinding it would freeze this session; use Single GPU Passthrough for this GPU." >&2
            return 1
        fi
        local current=""
        if [[ -L "$driver_link" ]]; then
            current=$(basename "$(readlink "$driver_link")")
            PCI_ORIG_DRIVERS[$dev]="$current"
            if [[ "$current" == "vfio-pci" ]]; then
                echo "$dev already bound to vfio-pci"
                continue
            fi
        fi
        need_bind=1
        case "$current" in
            nvidia|nouveau|amdgpu|radeon|i915|xe)
                bind_cmds+="echo 'Releasing GPU $dev from $current...' >&2; "
                bind_cmds+="for card in '$dev_path'/drm/card*; do [ -e \"\$card/uevent\" ] && echo remove > \"\$card/uevent\"; done; "
                if [[ "$current" == "nvidia" ]]; then
                    bind_cmds+="systemctl stop nvidia-persistenced 2>/dev/null; "
                fi
                bind_cmds+="if ! timeout -k 2 10 sh -c \"echo '$dev' > '$driver_link/unbind'\"; then "
                bind_cmds+="echo 'Unbinding $dev timed out; removing it and rescanning the PCI bus...' >&2; "
                bind_cmds+="echo 1 > '$dev_path/remove'; sleep 1; echo 1 > /sys/bus/pci/rescan; sleep 1; fi; "
                ;;
            "")
                bind_cmds+="echo 'Binding $dev to vfio-pci (no current driver)...' >&2; "
                ;;
            *)
                bind_cmds+="echo 'Unbinding $dev from $current...' >&2; "
                bind_cmds+="timeout -k 2 10 sh -c \"echo '$dev' > '$driver_link/unbind'\"; "
                ;;
        esac
        bind_cmds+="echo 'vfio-pci' > '$dev_path/driver_override'; "
        bind_cmds+="echo '$dev' > /sys/bus/pci/drivers_probe; "
    done
    if (( need_bind )); then
        echo "Binding PCI devices to vfio-pci (will require auth)..." | tee -a "$PCI_LOG"
        _pci_elevated "$bind_cmds" 2>&1 | tee -a "$PCI_LOG"
        if (( PIPESTATUS[0] != 0 )); then
            echo "Error: binding failed; see $PCI_LOG" >&2
            return 1
        fi
        for dev in "${PCI_DEVICES[@]}"; do
            if [[ "${PCI_ORIG_DRIVERS[$dev]:-}" == "vfio-pci" ]]; then
                continue
            fi
            if ! _wait_driver "$dev" "vfio-pci" 50; then
                echo "Warning: $dev did not bind to vfio-pci within 5s" | tee -a "$PCI_LOG" >&2
                echo "  Current driver: $(basename "$(readlink /sys/bus/pci/devices/$dev/driver 2>/dev/null)" 2>/dev/null || echo 'none')" | tee -a "$PCI_LOG" >&2
            fi
        done
    fi
}
restore_pci() {
    local restore_cmds=""
    local persistenced=0
    for dev in "${PCI_DEVICES[@]}"; do
        local dev_path="/sys/bus/pci/devices/$dev"
        local orig="${PCI_ORIG_DRIVERS[$dev]:-}"
        if [[ -z "$orig" ]] || [[ "$orig" == "vfio-pci" ]]; then
            continue
        fi
        echo "Restoring $dev to $orig..."
        restore_cmds+="timeout -k 2 10 sh -c \"echo '$dev' > '$dev_path/driver/unbind'\" || true; "
        restore_cmds+="echo '' > '$dev_path/driver_override'; "
        restore_cmds+="echo '$dev' > /sys/bus/pci/drivers_probe; "
        case "$orig" in
            nvidia|nouveau|amdgpu|radeon|i915|xe)
                restore_cmds+="for card in '$dev_path'/drm/card*; do [ -e \"\$card/uevent\" ] && echo add > \"\$card/uevent\"; done; "
                if [[ "$orig" == "nvidia" ]]; then
                    persistenced=1
                fi
                ;;
        esac
    done
    if (( persistenced )); then
        restore_cmds+="systemctl start nvidia-persistenced 2>/dev/null || true; "
    fi
    if [[ -n "$restore_cmds" ]]; then
        if [[ $EUID -eq 0 ]]; then
            sh -c "$restore_cmds"
        elif sudo -n true 2>/dev/null; then
            sudo sh -c "$restore_cmds"
        elif command -v pkexec >/dev/null 2>&1; then
            pkexec sh -c "$restore_cmds"
        else
            echo "Warning: Could not restore PCI devices (no cached credentials)" >&2
            echo "Devices will be restored on next reboot, or run: sudo modprobe -r vfio-pci" >&2
        fi
    fi
}
if declare -f cleanup >/dev/null 2>&1; then
    eval "$(declare -f cleanup | sed '1s/cleanup/_pci_pre_cleanup/')"
    cleanup() { restore_pci; _pci_pre_cleanup; }
else
    trap 'restore_pci' EXIT
fi
bind_vfio || exit 1
"#;

/// The quoted PCI addresses of the devices, in order.
pub open spec fn quoted_addresses(ds: Seq<PciDevice>) -> Seq<Seq<char>> {
    ds.map_values(|d: PciDevice| "\""@ + d.address@ + "\""@)
}

/// The managed section of the launch script for `ds`: nothing for no
/// devices; else the start marker, the QEMU arguments, the device array,
/// the driver table, the shell code, and the end marker.
pub open spec fn pci_section_text(ds: Seq<PciDevice>) -> Seq<char> {
    if ds.len() == 0 {
        seq![]
    } else {
        PCI_MARKER_START@ + "\n"@ + "PCI_PASSTHROUGH_ARGS=\""@ + join(
            passthrough_args_of(ds, first_vga_index(ds)),
            " "@,
        ) + "\"\n"@ + "PCI_DEVICES=("@ + join(quoted_addresses(ds), " "@) + ")\n"@
            + "declare -A PCI_ORIG_DRIVERS\n\n"@ + PCI_SCRIPT_BODY@ + PCI_MARKER_END@ + "\n"@
    }
}

/// The launch-script section that binds `devices` to vfio-pci for the VM's
/// run and passes them to QEMU.
pub fn generate_pci_section(devices: &[&PciDevice]) -> (res: String)
    ensures
        res@ == pci_section_text(devices@.map_values(|d: &PciDevice| *d)),
{
    let ghost ds = devices@.map_values(|d: &PciDevice| *d);
    if devices.len() == 0 {
        return String::new();
    }
    let mut owned: Vec<PciDevice> = Vec::new();
    let mut quoted: Vec<String> = Vec::new();
    let mut i: usize = 0;
    while i < devices.len()
        invariant
            i <= devices.len(),
            ds == devices@.map_values(|d: &PciDevice| *d),
            owned@ == ds.take(i as int),
            views(quoted@) == quoted_addresses(ds.take(i as int)),
        decreases devices.len() - i,
    {
        let d = devices[i];
        let ghost qbefore = quoted@;
        owned.push(d.clone());
        let mut q = String::from_str("\"");
        q.append(d.address.as_str());
        q.append("\"");
        let ghost qv = q@;
        quoted.push(q);
        proof {
            assert(ds[i as int] == *d);
            assert(owned@ =~= ds.take(i + 1));
            assert(qv == "\""@ + d.address@ + "\""@);
            assert(views(quoted@) =~= views(qbefore).push(qv));
            assert(quoted_addresses(ds.take(i + 1)) =~= quoted_addresses(ds.take(i as int)).push(
                "\""@ + ds[i as int].address@ + "\""@,
            ));
            assert(views(quoted@) =~= quoted_addresses(ds.take(i + 1)));
        }
        i += 1;
    }
    proof {
        assert(ds.take(devices.len() as int) =~= ds);
    }
    let args = generate_passthrough_args(owned.as_slice());
    let mut section = String::from_str(PCI_MARKER_START);
    section.append("\n");
    section.append("PCI_PASSTHROUGH_ARGS=\"");
    let joined = join_strings(&args, " ");
    section.append(joined.as_str());
    section.append("\"\n");
    section.append("PCI_DEVICES=(");
    let addrs = join_strings(&quoted, " ");
    section.append(addrs.as_str());
    section.append(")\n");
    section.append("declare -A PCI_ORIG_DRIVERS\n\n");
    section.append(PCI_SCRIPT_BODY);
    section.append(PCI_MARKER_END);
    section.append("\n");
    section
}

/// A line with every reference to `$PCI_PASSTHROUGH_ARGS` removed, together
/// with a space on one side of it.
pub open spec fn without_args_ref(line: Seq<char>) -> Seq<char> {
    replace_all(
        replace_all(
            replace_all(line, " $PCI_PASSTHROUGH_ARGS"@, seq![]),
            "$PCI_PASSTHROUGH_ARGS "@,
            seq![],
        ),
        "$PCI_PASSTHROUGH_ARGS"@,
        seq![],
    )
}

/// The lines outside managed sections, each cleaned and ended by a newline;
/// `inside` says whether the first line is inside a section.
pub open spec fn lines_outside_section(ls: Seq<Seq<char>>, inside: bool) -> Seq<char>
    decreases ls.len(),
{
    if ls.len() == 0 {
        seq![]
    } else if trim_ws(ls[0]) == PCI_MARKER_START@ {
        lines_outside_section(ls.drop_first(), true)
    } else if trim_ws(ls[0]) == PCI_MARKER_END@ {
        lines_outside_section(ls.drop_first(), false)
    } else if inside {
        lines_outside_section(ls.drop_first(), true)
    } else {
        without_args_ref(ls[0]) + "\n"@ + lines_outside_section(ls.drop_first(), false)
    }
}

/// `s` without its trailing newlines beyond one (while it ends with two
/// newlines, its last character is dropped).
pub open spec fn trim_blank_tail(s: Seq<char>) -> Seq<char>
    decreases s.len(),
{
    if s.len() >= 2 && s[s.len() - 1] == '\n' && s[s.len() - 2] == '\n' {
        trim_blank_tail(s.drop_last())
    } else {
        s
    }
}

/// The launch script without its managed PCI section and without any
/// reference to its arguments.
pub fn remove_pci_section(content: &str) -> (res: String)
    ensures
        res@ == trim_blank_tail(lines_outside_section(lines(content@), false)),
{
    let ls = lines_of(content);
    let ghost lv = views(ls@);
    let mut out = String::new();
    let mut inside = false;
    let mut i: usize = 0;
    proof {
        reveal_strlit(" $PCI_PASSTHROUGH_ARGS");
        reveal_strlit("$PCI_PASSTHROUGH_ARGS ");
        reveal_strlit("$PCI_PASSTHROUGH_ARGS");
        reveal_strlit("");
        assert(lv.skip(0) =~= lv);
    }
    while i < ls.len()
        invariant
            i <= ls.len(),
            lv == views(ls@),
            lv == lines(content@),
            ""@ == Seq::<char>::empty(),
            out@ + lines_outside_section(lv.skip(i as int), inside) == lines_outside_section(
                lv,
                false,
            ),
        decreases ls.len() - i,
    {
        let line = ls[i].as_str();
        let t = trim(line);
        proof {
            assert(lv.skip(i as int)[0] == ls@[i as int]@);
            assert(lv.skip(i as int).drop_first() =~= lv.skip(i + 1));
        }
        if str_eq(t.as_str(), PCI_MARKER_START) {
            inside = true;
        } else if str_eq(t.as_str(), PCI_MARKER_END) {
            inside = false;
        } else if !inside {
            proof {
                reveal_strlit(" $PCI_PASSTHROUGH_ARGS");
                reveal_strlit("$PCI_PASSTHROUGH_ARGS ");
                reveal_strlit("$PCI_PASSTHROUGH_ARGS");
            }
            let a = replace_str(line, " $PCI_PASSTHROUGH_ARGS", "");
            let b = replace_str(a.as_str(), "$PCI_PASSTHROUGH_ARGS ", "");
            let c = replace_str(b.as_str(), "$PCI_PASSTHROUGH_ARGS", "");
            let ghost before = out@;
            out.append(c.as_str());
            out.append("\n");
            proof {
                assert(out@ + lines_outside_section(lv.skip(i + 1), false) =~= before
                    + lines_outside_section(lv.skip(i as int), false));
            }
        }
        i += 1;
    }
    proof {
        assert(lv.skip(i as int).len() == 0);
        assert(out@ + Seq::<char>::empty() =~= out@);
    }
    let cs = chars_of(out.as_str());
    let mut k: usize = cs.len();
    proof {
        assert(cs@.take(k as int) =~= cs@);
    }
    while k >= 2 && cs[k - 1] == '\n' && cs[k - 2] == '\n'
        invariant
            k <= cs.len(),
            trim_blank_tail(cs@) == trim_blank_tail(cs@.take(k as int)),
        decreases k,
    {
        proof {
            assert(cs@.take(k as int).drop_last() =~= cs@.take(k - 1));
        }
        k -= 1;
    }
    proof {
        let t = cs@.take(k as int);
        if t.len() >= 2 {
            assert(t[t.len() - 1] == cs@[k - 1]);
            assert(t[t.len() - 2] == cs@[k - 2]);
        }
    }
    string_of(slice_range(&cs, 0, k).as_slice())
}

} // verus!
