use data_cleaner::kernel::{
    build_plan, detect_manager, kernel_queries, AvailableCommands, compare_versions, parse_dpkg_kernels, parse_rpm_kernels, plan_removal, removal_command,
    InstalledKernel, KernelManager,
};

fn kernel(version: &str, running: bool) -> InstalledKernel {
    InstalledKernel {
        version: version.to_string(),
        packages: vec![format!("kernel-core-{version}")],
        running,
    }
}

#[test]
fn versions_compare_numerically_not_lexically() {
    assert_eq!(compare_versions("6.10.0", "6.9.0"), std::cmp::Ordering::Greater);
    assert_eq!(compare_versions("6.8.0-40", "6.8.0-9"), std::cmp::Ordering::Greater);
    assert_eq!(compare_versions("6.8.5", "6.8.5"), std::cmp::Ordering::Equal);
}

#[test]
fn running_kernel_is_never_removed() {
    let kernels = vec![
        kernel("6.10.0", false),
        kernel("6.9.0", true), // booted into an older kernel
        kernel("6.8.0", false),
        kernel("6.7.0", false),
    ];
    let plan = plan_removal(KernelManager::Dnf, kernels, 1);
    let removed: Vec<_> = plan.removable.iter().map(|k| k.version.as_str()).collect();
    assert!(!removed.contains(&"6.9.0"), "running kernel must be retained");
    assert!(!removed.contains(&"6.10.0"), "newest kernel must be retained");
    assert_eq!(removed, vec!["6.7.0", "6.8.0"], "oldest first");
}

#[test]
fn keep_count_is_honoured() {
    let kernels = vec![
        kernel("6.10.0", true),
        kernel("6.9.0", false),
        kernel("6.8.0", false),
        kernel("6.7.0", false),
    ];
    let plan = plan_removal(KernelManager::Dnf, kernels, 3);
    assert_eq!(plan.retained.len(), 3);
    assert_eq!(plan.removable.len(), 1);
    assert_eq!(plan.removable[0].version, "6.7.0");
}

#[test]
fn a_single_installed_kernel_is_left_alone() {
    let plan = plan_removal(KernelManager::Dnf, vec![kernel("6.10.0", true)], 1);
    assert!(plan.removable.is_empty());
    assert!(plan.note.is_some());
    assert!(removal_command(&plan).is_none());
}

#[test]
fn arch_reports_nothing_to_do() {
    let plan = plan_removal(KernelManager::Pacman, vec![kernel("6.10.0", true)], 1);
    assert!(plan.removable.is_empty());
    assert!(plan.note.as_deref().unwrap().contains("Arch"));
    assert!(removal_command(&plan).is_none());
}

#[test]
fn rpm_output_groups_packages_by_version() {
    let out = "\
kernel 6.9.0-1.fc40.x86_64
kernel-core 6.9.0-1.fc40.x86_64
kernel-modules 6.9.0-1.fc40.x86_64
kernel-core 6.8.0-1.fc40.x86_64
kernel-headers 6.9.0-1.fc40.x86_64
";
    let kernels = parse_rpm_kernels(out, "6.9.0-1.fc40.x86_64");
    assert_eq!(kernels.len(), 2);
    let running: Vec<_> = kernels.iter().filter(|k| k.running).collect();
    assert_eq!(running.len(), 1);
    assert_eq!(running[0].version, "6.9.0-1.fc40.x86_64");
    assert_eq!(running[0].packages.len(), 3, "headers must be excluded");
}

#[test]
fn build_macro_packages_are_not_kernels() {
    let out = "\
kernel-core 7.1.8-200.fc44.x86_64
kernel-srpm-macros 1.0-28.fc44.noarch
";
    let kernels = parse_rpm_kernels(out, "7.1.8-200.fc44.x86_64");
    assert_eq!(kernels.len(), 1);
    assert_eq!(kernels[0].version, "7.1.8-200.fc44.x86_64");
}

#[test]
fn dpkg_meta_packages_are_never_listed() {
    let out = "\
linux-image-generic\tinstall ok installed
linux-image-6.8.0-40-generic\tinstall ok installed
linux-modules-6.8.0-40-generic\tinstall ok installed
linux-image-6.8.0-31-generic\tinstall ok installed
linux-image-6.8.0-20-generic\tdeinstall ok not-installed
";
    let kernels = parse_dpkg_kernels(out, "6.8.0-40-generic");
    let versions: Vec<_> = kernels.iter().map(|k| k.version.as_str()).collect();
    assert_eq!(versions, vec!["6.8.0-31-generic", "6.8.0-40-generic"]);
    assert!(
        !kernels.iter().any(|k| k.packages.iter().any(|p| p == "linux-image-generic")),
        "the meta package pulls in future kernels and must never be removed"
    );
    assert!(
        !kernels.iter().any(|k| k.version.contains("6.8.0-20")),
        "packages already removed must be ignored"
    );
}

#[test]
fn removal_command_uses_explicit_names_never_autoremove() {
    let kernels = vec![kernel("6.10.0", true), kernel("6.9.0", false), kernel("6.8.0", false)];
    let plan = plan_removal(KernelManager::Dnf, kernels, 1);
    let args = removal_command(&plan).expect("something to remove");
    assert!(!args.iter().any(|a| a.contains("autoremove")));
    assert_eq!(args[0], "dnf");
    assert!(args.contains(&"kernel-core-6.8.0".to_string()));
}

#[test]
fn apt_purges_by_name() {
    let kernels = vec![kernel("6.10.0", true), kernel("6.9.0", false), kernel("6.8.0", false)];
    let plan = plan_removal(KernelManager::Apt, kernels, 1);
    let args = removal_command(&plan).expect("something to remove");
    assert_eq!(&args[..3], &["apt-get", "-y", "purge"]);
    assert!(!args.iter().any(|a| a.contains("autoremove")));
}

#[test]
fn command_search_covers_the_usual_directories_in_order() {
    let candidates = data_cleaner::kernel::command_candidates("dnf");
    assert_eq!(candidates, vec!["/usr/bin/dnf", "/bin/dnf", "/usr/sbin/dnf", "/sbin/dnf"]);
}

#[test]
fn pacman_wins_over_rpm_based_managers() {
    let all = AvailableCommands { pacman: true, apt_get: true, dpkg_query: true, zypper: true, dnf: true, rpm: true };
    assert_eq!(detect_manager(all), Some(KernelManager::Pacman));
    let apt_without_dpkg = AvailableCommands { pacman: false, apt_get: true, dpkg_query: false, zypper: false, dnf: true, rpm: true };
    assert_eq!(detect_manager(apt_without_dpkg), Some(KernelManager::Dnf));
    let none = AvailableCommands { pacman: false, apt_get: false, dpkg_query: false, zypper: false, dnf: false, rpm: false };
    assert_eq!(detect_manager(none), None);
}

#[test]
fn building_a_plan_needs_a_package_manager() {
    let r = build_plan(None, "6.9.0", Ok(String::new()), 1);
    assert_eq!(r.unwrap_err(), "No supported package manager was found on this system.");
    let failed = build_plan(Some(KernelManager::Dnf), "6.9.0", Err("The rpm executable was not found.".to_string()), 1);
    assert_eq!(failed.unwrap_err(), "The rpm executable was not found.");
    let listing = "kernel-core 6.9.0-1.fc40.x86_64\nkernel-core 6.8.0-1.fc40.x86_64\nkernel-core 6.7.0-1.fc40.x86_64\n";
    let plan = build_plan(Some(KernelManager::Dnf), "6.9.0-1.fc40.x86_64", Ok(listing.to_string()), 1).unwrap();
    let removed: Vec<_> = plan.removable.iter().map(|k| k.version.as_str()).collect();
    assert_eq!(removed, vec!["6.7.0-1.fc40.x86_64", "6.8.0-1.fc40.x86_64"]);
}

#[test]
fn rpm_systems_query_both_install_only_capabilities() {
    let q = kernel_queries(KernelManager::Zypper);
    assert_eq!(q.len(), 2);
    assert_eq!(q[0].command, "rpm");
    assert!(q[0].args.contains(&"installonlypkg(kernel)".to_string()));
    assert!(q[1].args.contains(&"installonlypkg(kernel-module)".to_string()));
    assert!(kernel_queries(KernelManager::Pacman).is_empty());
    let apt = kernel_queries(KernelManager::Apt);
    assert_eq!(apt[0].command, "dpkg-query");
    assert_eq!(apt[0].args[1], "-f=${Package}\\t${Status}\\n");
}

#[test]
fn dpkg_extra_modules_share_the_image_release() {
    let out = "linux-image-6.8.0-40-generic\tinstall ok installed\nlinux-modules-extra-6.8.0-40-generic\tinstall ok installed\n";
    let kernels = parse_dpkg_kernels(out, "");
    assert_eq!(kernels.len(), 1);
    assert_eq!(kernels[0].version, "6.8.0-40-generic");
    assert_eq!(
        kernels[0].packages,
        vec!["linux-image-6.8.0-40-generic".to_string(), "linux-modules-extra-6.8.0-40-generic".to_string()]
    );
    assert!(!kernels[0].running);
}
