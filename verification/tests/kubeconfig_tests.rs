use k8pk::kubeconfig::{detect_cluster_type, friendly_context_name, sanitize_filename};

#[test]
fn test_sanitize_filename() {
    assert_eq!(sanitize_filename("dev-cluster"), "dev-cluster");
    assert_eq!(
        sanitize_filename("arn:aws:eks:us-east-1"),
        "arn_aws_eks_us-east-1"
    );
    assert_eq!(sanitize_filename("path/to/config"), "path_to_config");
}

#[test]
fn test_detect_cluster_type_by_name() {
    assert_eq!(
        detect_cluster_type("arn:aws:eks:us-east-1:123:cluster/prod", None),
        "eks"
    );
    assert_eq!(detect_cluster_type("gke_project_zone_cluster", None), "gke");
    // OCP detection by name requires /api. and :6443 pattern
    assert_eq!(
        detect_cluster_type("admin/api.cluster.example.com:6443", None),
        "ocp"
    );
    assert_eq!(detect_cluster_type("aks-dev-cluster", None), "aks");
    assert_eq!(detect_cluster_type("minikube", None), "k8s");
}

#[test]
fn test_detect_cluster_type_by_url() {
    assert_eq!(
        detect_cluster_type("my-cluster", Some("https://abc123.eks.amazonaws.com")),
        "eks"
    );
    assert_eq!(
        detect_cluster_type(
            "my-cluster",
            Some("https://35.x.x.x.container.googleapis.com")
        ),
        "gke"
    );
    assert_eq!(
        detect_cluster_type("my-cluster", Some("https://api.cluster.example.com:6443")),
        "ocp"
    );
}

#[test]
fn test_friendly_context_name() {
    assert_eq!(
        friendly_context_name("arn:aws:eks:us-east-1:123:cluster/prod-cluster", "eks"),
        "prod-cluster"
    );
    assert_eq!(
        friendly_context_name("gke_my-project_us-central1_my-cluster", "gke"),
        "my-cluster"
    );
    // OpenShift format: project/api-host:port/user -> project@host
    assert_eq!(
        friendly_context_name(
            "alvarlamov-sandbox-dev/api-hwinf-k8s-os-pdx1-nvparkosdev-nvidia-com:6443/kube:admin",
            "ocp"
        ),
        "alvarlamov-sandbox-dev@hwinf-k8s-os-pdx1-nvparkosdev-nvidia-com"
    );
}
