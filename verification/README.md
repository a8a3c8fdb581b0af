# nix-vmware-fusion

The decisions behind `nix-vmware-fusion vm apply`, which brings a VMware
Fusion virtual machine in line with a JSON configuration, written in Verus
and proved against their contracts.

- `src/` is the verified library: path handling (`paths`), the configuration
  (`schema`), the disk plan and its laws (`disks::plan`, `disks::plan_laws`),
  staging and committing disk changes, including the conversion steps that
  never lose the original disk (`disks::stage`, `disks::commit`), reading
  qemu-img's report (`disks::inspect`), the VMX file (`vmx`), and the order of
  a commit and the power-state check (`vm`).
- `app/` is the command-line program: it reads the configuration, runs the
  VMware tools, touches the file system, and asks the library what to do.
- `tests/` runs the library on concrete cases.
