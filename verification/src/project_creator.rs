//! The project scaffolds offered, and how one is run.
use vstd::prelude::*;
use crate::paths;
use crate::text;

verus! {

/// A project scaffold: the command that creates the project and the one
/// that installs its dependencies afterwards.
pub struct Framework {
    pub icon: &'static str,
    pub name: &'static str,
    pub description: &'static str,
    pub language: &'static str,
    pub cmd: &'static str,
    pub args: Vec<&'static str>,
    /// Whether the command makes the project folder itself (it then runs in
    /// the parent folder).
    pub create_own_dir: bool,
    pub install_cmd: Option<(&'static str, Vec<&'static str>)>,
}

pub struct FrameworkView {
    pub icon: Seq<char>,
    pub name: Seq<char>,
    pub description: Seq<char>,
    pub language: Seq<char>,
    pub cmd: Seq<char>,
    pub args: Seq<Seq<char>>,
    pub create_own_dir: bool,
    pub install: Option<(Seq<char>, Seq<Seq<char>>)>,
}

pub open spec fn str_views(v: Seq<&'static str>) -> Seq<Seq<char>> {
    v.map_values(|s: &'static str| s@)
}

pub open spec fn framework_view(f: Framework) -> FrameworkView {
    FrameworkView {
        icon: f.icon@,
        name: f.name@,
        description: f.description@,
        language: f.language@,
        cmd: f.cmd@,
        args: str_views(f.args@),
        create_own_dir: f.create_own_dir,
        install: match f.install_cmd {
            Some((c, a)) => Some((c@, str_views(a@))),
            None => None,
        },
    }
}

/// Every scaffold offered, in menu order.
pub open spec fn framework_table() -> Seq<FrameworkView> {
    seq![
        FrameworkView {
            icon: "⚛ "@,
            name: "React  (Vite)"@,
            description: "Fast React SPA with Vite, initialized in the folder you pick"@,
            language: "JavaScript / TypeScript"@,
            cmd: "npm"@,
            args: seq!["create"@, "vite@latest"@, "."@, "--"@, "--template"@, "react"@],
            create_own_dir: false,
            install: Some(("npm"@, seq!["install"@])),
        },
        FrameworkView {
            icon: "▲ "@,
            name: "Next.js"@,
            description: "Full-stack React framework, initialized in the folder you pick"@,
            language: "JavaScript / TypeScript"@,
            cmd: "npx"@,
            args: seq!["create-next-app@latest"@, "."@, "--yes"@],
            create_own_dir: false,
            install: None,
        },
        FrameworkView {
            icon: "◈ "@,
            name: "Vue 3  (Vite)"@,
            description: "Progressive JS framework, initialized in the folder you pick"@,
            language: "JavaScript / TypeScript"@,
            cmd: "npm"@,
            args: seq!["create"@, "vite@latest"@, "."@, "--"@, "--template"@, "vue"@],
            create_own_dir: false,
            install: Some(("npm"@, seq!["install"@])),
        },
        FrameworkView {
            icon: "A "@,
            name: "Angular"@,
            description: "Enterprise-grade Angular app, initialized in the folder you pick"@,
            language: "TypeScript"@,
            cmd: "npx"@,
            args: seq!["-p"@, "@angular/cli"@, "ng"@, "new"@, "{name}"@, "--directory=."@, "--defaults"@],
            create_own_dir: false,
            install: None,
        },
        FrameworkView {
            icon: "S "@,
            name: "SvelteKit"@,
            description: "Cybernetically enhanced web app, initialized in the folder you pick"@,
            language: "JavaScript / TypeScript"@,
            cmd: "npm"@,
            args: seq!["create"@, "svelte@latest"@, "."@],
            create_own_dir: false,
            install: Some(("npm"@, seq!["install"@])),
        },
        FrameworkView {
            icon: "🦕"@,
            name: "Deno"@,
            description: "Secure TS/JS runtime project, initialized in the folder you pick"@,
            language: "TypeScript / JavaScript"@,
            cmd: "deno"@,
            args: seq!["init"@, "."@],
            create_own_dir: false,
            install: None,
        },
        FrameworkView {
            icon: "🥟"@,
            name: "Bun"@,
            description: "All-in-one JS/TS runtime project, initialized in the folder you pick"@,
            language: "TypeScript / JavaScript"@,
            cmd: "bun"@,
            args: seq!["init"@, "-y"@],
            create_own_dir: false,
            install: Some(("bun"@, seq!["install"@])),
        },
        FrameworkView {
            icon: "N "@,
            name: "Node.js  (Express)"@,
            description: "Express REST API server, initialized in the folder you pick"@,
            language: "JavaScript"@,
            cmd: "npx"@,
            args: seq!["express-generator"@, "--no-view"@, "."@],
            create_own_dir: false,
            install: Some(("npm"@, seq!["install"@])),
        },
        FrameworkView {
            icon: "* "@,
            name: "Flutter"@,
            description: "Cross-platform mobile/web/desktop app, initialized in the folder you pick"@,
            language: "Dart"@,
            cmd: "flutter"@,
            args: seq!["create"@, "."@],
            create_own_dir: false,
            install: None,
        },
        FrameworkView {
            icon: "R "@,
            name: "Rust  (Cargo)"@,
            description: "Rust binary crate, initialized in the folder you pick"@,
            language: "Rust"@,
            cmd: "cargo"@,
            args: seq!["init"@],
            create_own_dir: false,
            install: Some(("cargo"@, seq!["fetch"@])),
        },
        FrameworkView {
            icon: ". "@,
            name: ".NET Web API"@,
            description: "ASP.NET Core web API, initialized in the folder you pick"@,
            language: "C#"@,
            cmd: "dotnet"@,
            args: seq!["new"@, "webapi"@, "-n"@, "{name}"@],
            create_own_dir: false,
            install: Some(("dotnet"@, seq!["restore"@])),
        },
        FrameworkView {
            icon: "🐹"@,
            name: "Go  (module)"@,
            description: "Go module, go.mod initialized in the folder you pick"@,
            language: "Go"@,
            cmd: "go"@,
            args: seq!["mod"@, "init"@, "{name}"@],
            create_own_dir: false,
            install: Some(("go"@, seq!["mod"@, "tidy"@])),
        },
        FrameworkView {
            icon: "🅑 "@,
            name: "Ballerina"@,
            description: "Ballerina package, initialized in the folder you pick"@,
            language: "Ballerina"@,
            cmd: "bal"@,
            args: seq!["new"@, "."@],
            create_own_dir: false,
            install: None,
        },
        FrameworkView {
            icon: "💧"@,
            name: "Elixir  (Mix)"@,
            description: "Elixir project, initialized in the folder you pick"@,
            language: "Elixir"@,
            cmd: "mix"@,
            args: seq!["new"@, "."@],
            create_own_dir: false,
            install: Some(("mix"@, seq!["deps.get"@])),
        },
        FrameworkView {
            icon: "🍎"@,
            name: "Swift Package"@,
            description: "Executable Swift package, initialized in the folder you pick"@,
            language: "Swift"@,
            cmd: "swift"@,
            args: seq!["package"@, "init"@, "--type"@, "executable"@],
            create_own_dir: false,
            install: Some(("swift"@, seq!["package"@, "resolve"@])),
        },
        FrameworkView {
            icon: "☕"@,
            name: "Java  (Maven)"@,
            description: "Maven quickstart archetype (creates a nested artifactId subfolder)"@,
            language: "Java"@,
            cmd: "mvn"@,
            args: seq!["archetype:generate"@, "-DgroupId=com.example"@, "-DartifactId={name}"@, "-DarchetypeArtifactId=maven-archetype-quickstart"@, "-DarchetypeVersion=1.4"@, "-DinteractiveMode=false"@],
            create_own_dir: true,
            install: None,
        },
        FrameworkView {
            icon: "P "@,
            name: "Python  (venv)"@,
            description: "Virtual environment created inside the folder you pick"@,
            language: "Python"@,
            cmd: "python"@,
            args: seq!["-m"@, "venv"@, "venv"@],
            create_own_dir: false,
            install: None,
        },
        FrameworkView {
            icon: "🐍"@,
            name: "Python  (Poetry)"@,
            description: "Poetry-managed package, initialized in the folder you pick"@,
            language: "Python"@,
            cmd: "poetry"@,
            args: seq!["init"@, "--no-interaction"@],
            create_own_dir: false,
            install: Some(("poetry"@, seq!["install"@, "--no-interaction"@, "--no-root"@])),
        },
        FrameworkView {
            icon: "🐘"@,
            name: "PHP  (Laravel)"@,
            description: "Laravel web application, installed into the folder you pick"@,
            language: "PHP"@,
            cmd: "composer"@,
            args: seq!["create-project"@, "laravel/laravel"@, "."@],
            create_own_dir: false,
            install: None,
        },
    ]
}

/// The table of scaffolds (`FRAMEWORKS`).
pub fn frameworks() -> (r: Vec<Framework>)
    ensures
        r@.map_values(|f: Framework| framework_view(f)) == framework_table(),
{
    let mut v: Vec<Framework> = Vec::new();
    let mut a0: Vec<&'static str> = Vec::new();
    a0.push("create");
    a0.push("vite@latest");
    a0.push(".");
    a0.push("--");
    a0.push("--template");
    a0.push("react");
    let mut i0: Vec<&'static str> = Vec::new();
    i0.push("install");
    assert(str_views(a0@) =~= seq!["create"@, "vite@latest"@, "."@, "--"@, "--template"@, "react"@]);
    assert(str_views(i0@) =~= seq!["install"@]);
    let ghost before0 = v@.map_values(|f: Framework| framework_view(f));
    v.push(Framework {
        icon: "⚛ ",
        name: "React  (Vite)",
        description: "Fast React SPA with Vite, initialized in the folder you pick",
        language: "JavaScript / TypeScript",
        cmd: "npm",
        args: a0,
        create_own_dir: false,
        install_cmd: Some(("npm", i0)),
    });
    assert(v@.map_values(|f: Framework| framework_view(f)) =~= before0.push(framework_table()[0]));
    let mut a1: Vec<&'static str> = Vec::new();
    a1.push("create-next-app@latest");
    a1.push(".");
    a1.push("--yes");
    assert(str_views(a1@) =~= seq!["create-next-app@latest"@, "."@, "--yes"@]);
    let ghost before1 = v@.map_values(|f: Framework| framework_view(f));
    v.push(Framework {
        icon: "▲ ",
        name: "Next.js",
        description: "Full-stack React framework, initialized in the folder you pick",
        language: "JavaScript / TypeScript",
        cmd: "npx",
        args: a1,
        create_own_dir: false,
        install_cmd: None,
    });
    assert(v@.map_values(|f: Framework| framework_view(f)) =~= before1.push(framework_table()[1]));
    let mut a2: Vec<&'static str> = Vec::new();
    a2.push("create");
    a2.push("vite@latest");
    a2.push(".");
    a2.push("--");
    a2.push("--template");
    a2.push("vue");
    let mut i2: Vec<&'static str> = Vec::new();
    i2.push("install");
    assert(str_views(a2@) =~= seq!["create"@, "vite@latest"@, "."@, "--"@, "--template"@, "vue"@]);
    assert(str_views(i2@) =~= seq!["install"@]);
    let ghost before2 = v@.map_values(|f: Framework| framework_view(f));
    v.push(Framework {
        icon: "◈ ",
        name: "Vue 3  (Vite)",
        description: "Progressive JS framework, initialized in the folder you pick",
        language: "JavaScript / TypeScript",
        cmd: "npm",
        args: a2,
        create_own_dir: false,
        install_cmd: Some(("npm", i2)),
    });
    assert(v@.map_values(|f: Framework| framework_view(f)) =~= before2.push(framework_table()[2]));
    let mut a3: Vec<&'static str> = Vec::new();
    a3.push("-p");
    a3.push("@angular/cli");
    a3.push("ng");
    a3.push("new");
    a3.push("{name}");
    a3.push("--directory=.");
    a3.push("--defaults");
    assert(str_views(a3@) =~= seq!["-p"@, "@angular/cli"@, "ng"@, "new"@, "{name}"@, "--directory=."@, "--defaults"@]);
    let ghost before3 = v@.map_values(|f: Framework| framework_view(f));
    v.push(Framework {
        icon: "A ",
        name: "Angular",
        description: "Enterprise-grade Angular app, initialized in the folder you pick",
        language: "TypeScript",
        cmd: "npx",
        args: a3,
        create_own_dir: false,
        install_cmd: None,
    });
    assert(v@.map_values(|f: Framework| framework_view(f)) =~= before3.push(framework_table()[3]));
    let mut a4: Vec<&'static str> = Vec::new();
    a4.push("create");
    a4.push("svelte@latest");
    a4.push(".");
    let mut i4: Vec<&'static str> = Vec::new();
    i4.push("install");
    assert(str_views(a4@) =~= seq!["create"@, "svelte@latest"@, "."@]);
    assert(str_views(i4@) =~= seq!["install"@]);
    let ghost before4 = v@.map_values(|f: Framework| framework_view(f));
    v.push(Framework {
        icon: "S ",
        name: "SvelteKit",
        description: "Cybernetically enhanced web app, initialized in the folder you pick",
        language: "JavaScript / TypeScript",
        cmd: "npm",
        args: a4,
        create_own_dir: false,
        install_cmd: Some(("npm", i4)),
    });
    assert(v@.map_values(|f: Framework| framework_view(f)) =~= before4.push(framework_table()[4]));
    let mut a5: Vec<&'static str> = Vec::new();
    a5.push("init");
    a5.push(".");
    assert(str_views(a5@) =~= seq!["init"@, "."@]);
    let ghost before5 = v@.map_values(|f: Framework| framework_view(f));
    v.push(Framework {
        icon: "🦕",
        name: "Deno",
        description: "Secure TS/JS runtime project, initialized in the folder you pick",
        language: "TypeScript / JavaScript",
        cmd: "deno",
        args: a5,
        create_own_dir: false,
        install_cmd: None,
    });
    assert(v@.map_values(|f: Framework| framework_view(f)) =~= before5.push(framework_table()[5]));
    let mut a6: Vec<&'static str> = Vec::new();
    a6.push("init");
    a6.push("-y");
    let mut i6: Vec<&'static str> = Vec::new();
    i6.push("install");
    assert(str_views(a6@) =~= seq!["init"@, "-y"@]);
    assert(str_views(i6@) =~= seq!["install"@]);
    let ghost before6 = v@.map_values(|f: Framework| framework_view(f));
    v.push(Framework {
        icon: "🥟",
        name: "Bun",
        description: "All-in-one JS/TS runtime project, initialized in the folder you pick",
        language: "TypeScript / JavaScript",
        cmd: "bun",
        args: a6,
        create_own_dir: false,
        install_cmd: Some(("bun", i6)),
    });
    assert(v@.map_values(|f: Framework| framework_view(f)) =~= before6.push(framework_table()[6]));
    let mut a7: Vec<&'static str> = Vec::new();
    a7.push("express-generator");
    a7.push("--no-view");
    a7.push(".");
    let mut i7: Vec<&'static str> = Vec::new();
    i7.push("install");
    assert(str_views(a7@) =~= seq!["express-generator"@, "--no-view"@, "."@]);
    assert(str_views(i7@) =~= seq!["install"@]);
    let ghost before7 = v@.map_values(|f: Framework| framework_view(f));
    v.push(Framework {
        icon: "N ",
        name: "Node.js  (Express)",
        description: "Express REST API server, initialized in the folder you pick",
        language: "JavaScript",
        cmd: "npx",
        args: a7,
        create_own_dir: false,
        install_cmd: Some(("npm", i7)),
    });
    assert(v@.map_values(|f: Framework| framework_view(f)) =~= before7.push(framework_table()[7]));
    let mut a8: Vec<&'static str> = Vec::new();
    a8.push("create");
    a8.push(".");
    assert(str_views(a8@) =~= seq!["create"@, "."@]);
    let ghost before8 = v@.map_values(|f: Framework| framework_view(f));
    v.push(Framework {
        icon: "* ",
        name: "Flutter",
        description: "Cross-platform mobile/web/desktop app, initialized in the folder you pick",
        language: "Dart",
        cmd: "flutter",
        args: a8,
        create_own_dir: false,
        install_cmd: None,
    });
    assert(v@.map_values(|f: Framework| framework_view(f)) =~= before8.push(framework_table()[8]));
    let mut a9: Vec<&'static str> = Vec::new();
    a9.push("init");
    let mut i9: Vec<&'static str> = Vec::new();
    i9.push("fetch");
    assert(str_views(a9@) =~= seq!["init"@]);
    assert(str_views(i9@) =~= seq!["fetch"@]);
    let ghost before9 = v@.map_values(|f: Framework| framework_view(f));
    v.push(Framework {
        icon: "R ",
        name: "Rust  (Cargo)",
        description: "Rust binary crate, initialized in the folder you pick",
        language: "Rust",
        cmd: "cargo",
        args: a9,
        create_own_dir: false,
        install_cmd: Some(("cargo", i9)),
    });
    assert(v@.map_values(|f: Framework| framework_view(f)) =~= before9.push(framework_table()[9]));
    let mut a10: Vec<&'static str> = Vec::new();
    a10.push("new");
    a10.push("webapi");
    a10.push("-n");
    a10.push("{name}");
    let mut i10: Vec<&'static str> = Vec::new();
    i10.push("restore");
    assert(str_views(a10@) =~= seq!["new"@, "webapi"@, "-n"@, "{name}"@]);
    assert(str_views(i10@) =~= seq!["restore"@]);
    let ghost before10 = v@.map_values(|f: Framework| framework_view(f));
    v.push(Framework {
        icon: ". ",
        name: ".NET Web API",
        description: "ASP.NET Core web API, initialized in the folder you pick",
        language: "C#",
        cmd: "dotnet",
        args: a10,
        create_own_dir: false,
        install_cmd: Some(("dotnet", i10)),
    });
    assert(v@.map_values(|f: Framework| framework_view(f)) =~= before10.push(framework_table()[10]));
    let mut a11: Vec<&'static str> = Vec::new();
    a11.push("mod");
    a11.push("init");
    a11.push("{name}");
    let mut i11: Vec<&'static str> = Vec::new();
    i11.push("mod");
    i11.push("tidy");
    assert(str_views(a11@) =~= seq!["mod"@, "init"@, "{name}"@]);
    assert(str_views(i11@) =~= seq!["mod"@, "tidy"@]);
    let ghost before11 = v@.map_values(|f: Framework| framework_view(f));
    v.push(Framework {
        icon: "🐹",
        name: "Go  (module)",
        description: "Go module, go.mod initialized in the folder you pick",
        language: "Go",
        cmd: "go",
        args: a11,
        create_own_dir: false,
        install_cmd: Some(("go", i11)),
    });
    assert(v@.map_values(|f: Framework| framework_view(f)) =~= before11.push(framework_table()[11]));
    let mut a12: Vec<&'static str> = Vec::new();
    a12.push("new");
    a12.push(".");
    assert(str_views(a12@) =~= seq!["new"@, "."@]);
    let ghost before12 = v@.map_values(|f: Framework| framework_view(f));
    v.push(Framework {
        icon: "🅑 ",
        name: "Ballerina",
        description: "Ballerina package, initialized in the folder you pick",
        language: "Ballerina",
        cmd: "bal",
        args: a12,
        create_own_dir: false,
        install_cmd: None,
    });
    assert(v@.map_values(|f: Framework| framework_view(f)) =~= before12.push(framework_table()[12]));
    let mut a13: Vec<&'static str> = Vec::new();
    a13.push("new");
    a13.push(".");
    let mut i13: Vec<&'static str> = Vec::new();
    i13.push("deps.get");
    assert(str_views(a13@) =~= seq!["new"@, "."@]);
    assert(str_views(i13@) =~= seq!["deps.get"@]);
    let ghost before13 = v@.map_values(|f: Framework| framework_view(f));
    v.push(Framework {
        icon: "💧",
        name: "Elixir  (Mix)",
        description: "Elixir project, initialized in the folder you pick",
        language: "Elixir",
        cmd: "mix",
        args: a13,
        create_own_dir: false,
        install_cmd: Some(("mix", i13)),
    });
    assert(v@.map_values(|f: Framework| framework_view(f)) =~= before13.push(framework_table()[13]));
    let mut a14: Vec<&'static str> = Vec::new();
    a14.push("package");
    a14.push("init");
    a14.push("--type");
    a14.push("executable");
    let mut i14: Vec<&'static str> = Vec::new();
    i14.push("package");
    i14.push("resolve");
    assert(str_views(a14@) =~= seq!["package"@, "init"@, "--type"@, "executable"@]);
    assert(str_views(i14@) =~= seq!["package"@, "resolve"@]);
    let ghost before14 = v@.map_values(|f: Framework| framework_view(f));
    v.push(Framework {
        icon: "🍎",
        name: "Swift Package",
        description: "Executable Swift package, initialized in the folder you pick",
        language: "Swift",
        cmd: "swift",
        args: a14,
        create_own_dir: false,
        install_cmd: Some(("swift", i14)),
    });
    assert(v@.map_values(|f: Framework| framework_view(f)) =~= before14.push(framework_table()[14]));
    let mut a15: Vec<&'static str> = Vec::new();
    a15.push("archetype:generate");
    a15.push("-DgroupId=com.example");
    a15.push("-DartifactId={name}");
    a15.push("-DarchetypeArtifactId=maven-archetype-quickstart");
    a15.push("-DarchetypeVersion=1.4");
    a15.push("-DinteractiveMode=false");
    assert(str_views(a15@) =~= seq!["archetype:generate"@, "-DgroupId=com.example"@, "-DartifactId={name}"@, "-DarchetypeArtifactId=maven-archetype-quickstart"@, "-DarchetypeVersion=1.4"@, "-DinteractiveMode=false"@]);
    let ghost before15 = v@.map_values(|f: Framework| framework_view(f));
    v.push(Framework {
        icon: "☕",
        name: "Java  (Maven)",
        description: "Maven quickstart archetype (creates a nested artifactId subfolder)",
        language: "Java",
        cmd: "mvn",
        args: a15,
        create_own_dir: true,
        install_cmd: None,
    });
    assert(v@.map_values(|f: Framework| framework_view(f)) =~= before15.push(framework_table()[15]));
    let mut a16: Vec<&'static str> = Vec::new();
    a16.push("-m");
    a16.push("venv");
    a16.push("venv");
    assert(str_views(a16@) =~= seq!["-m"@, "venv"@, "venv"@]);
    let ghost before16 = v@.map_values(|f: Framework| framework_view(f));
    v.push(Framework {
        icon: "P ",
        name: "Python  (venv)",
        description: "Virtual environment created inside the folder you pick",
        language: "Python",
        cmd: "python",
        args: a16,
        create_own_dir: false,
        install_cmd: None,
    });
    assert(v@.map_values(|f: Framework| framework_view(f)) =~= before16.push(framework_table()[16]));
    let mut a17: Vec<&'static str> = Vec::new();
    a17.push("init");
    a17.push("--no-interaction");
    let mut i17: Vec<&'static str> = Vec::new();
    i17.push("install");
    i17.push("--no-interaction");
    i17.push("--no-root");
    assert(str_views(a17@) =~= seq!["init"@, "--no-interaction"@]);
    assert(str_views(i17@) =~= seq!["install"@, "--no-interaction"@, "--no-root"@]);
    let ghost before17 = v@.map_values(|f: Framework| framework_view(f));
    v.push(Framework {
        icon: "🐍",
        name: "Python  (Poetry)",
        description: "Poetry-managed package, initialized in the folder you pick",
        language: "Python",
        cmd: "poetry",
        args: a17,
        create_own_dir: false,
        install_cmd: Some(("poetry", i17)),
    });
    assert(v@.map_values(|f: Framework| framework_view(f)) =~= before17.push(framework_table()[17]));
    let mut a18: Vec<&'static str> = Vec::new();
    a18.push("create-project");
    a18.push("laravel/laravel");
    a18.push(".");
    assert(str_views(a18@) =~= seq!["create-project"@, "laravel/laravel"@, "."@]);
    let ghost before18 = v@.map_values(|f: Framework| framework_view(f));
    v.push(Framework {
        icon: "🐘",
        name: "PHP  (Laravel)",
        description: "Laravel web application, installed into the folder you pick",
        language: "PHP",
        cmd: "composer",
        args: a18,
        create_own_dir: false,
        install_cmd: None,
    });
    assert(v@.map_values(|f: Framework| framework_view(f)) =~= before18.push(framework_table()[18]));
    assert(v@.map_values(|f: Framework| framework_view(f)) =~= framework_table());
    v
}

/// The tool whose presence makes a scaffold available: `npm` for `npx`
/// scaffolds, else the scaffold's own command.
pub open spec fn check_tool(f: FrameworkView) -> Seq<char> {
    if f.cmd == "npx"@ {
        "npm"@
    } else {
        f.cmd
    }
}

pub fn required_tool(f: &Framework) -> (r: &'static str)
    ensures
        r@ == check_tool(framework_view(*f)),
{
    if text::str_eq(f.cmd, "npx") {
        "npm"
    } else {
        f.cmd
    }
}

/// The indices of the scaffolds whose tool is among `installed`, in order.
pub open spec fn available(table: Seq<FrameworkView>, installed: Seq<Seq<char>>) -> Seq<int>
    decreases table.len(),
{
    if table.len() == 0 {
        Seq::empty()
    } else {
        available(table.drop_last(), installed) + if installed.contains(
            check_tool(table.last()),
        ) {
            seq![table.len() - 1]
        } else {
            Seq::empty()
        }
    }
}

/// The indices of the scaffolds that can run here, given the names of the
/// tools found on `PATH`.
pub fn available_frameworks(installed: &Vec<String>) -> (r: Vec<usize>)
    ensures
        r@.map_values(|i: usize| i as int) == available(framework_table(), text::views(installed@)),
        forall|k: int| 0 <= k < r.len() ==> #[trigger] r@[k] < framework_table().len(),
{
    let table = frameworks();
    let ghost tv = table@.map_values(|f: Framework| framework_view(f));
    let mut out: Vec<usize> = Vec::new();
    let mut i: usize = 0;
    assert(tv.take(0) =~= Seq::<FrameworkView>::empty());
    while i < table.len()
        invariant
            i <= table.len(),
            tv == table@.map_values(|f: Framework| framework_view(f)),
            tv == framework_table(),
            out@.map_values(|j: usize| j as int) == available(
                tv.take(i as int),
                text::views(installed@),
            ),
            forall|k: int| 0 <= k < out.len() ==> #[trigger] out@[k] < i,
        decreases table.len() - i,
    {
        let ghost before = out@.map_values(|j: usize| j as int);
        assert(tv.take(i + 1).drop_last() =~= tv.take(i as int));
        assert(tv.take(i + 1).last() == framework_view(table@[i as int]));
        let tool = required_tool(&table[i]);
        if crate::detect::has(installed, tool) {
            out.push(i);
            assert(out@.map_values(|j: usize| j as int) =~= before.push(i as int));
        }
        i = i + 1;
    }
    assert(tv.take(i as int) =~= tv);
    out
}

/// `cmd` followed by its arguments, separated by spaces.
pub open spec fn command_text(cmd: Seq<char>, args: Seq<Seq<char>>) -> Seq<char> {
    cmd + " "@ + text::join(args, " "@)
}

pub fn command_line(cmd: &str, args: &Vec<String>) -> (r: String)
    ensures
        r@ == command_text(cmd@, text::views(args@)),
{
    String::from_str(cmd).concat(" ").concat(text::join_strings(args, " ").as_str())
}

/// How a scaffold is run for a project folder.
pub struct ScaffoldPlan {
    /// The project's name: the folder's name.
    pub project_name: String,
    /// Whether the project folder is to be created first.
    pub create_dir: bool,
    /// The folder the scaffold command runs in.
    pub run_dir: String,
    pub cmd: String,
    pub args: Vec<String>,
    /// The dependency install command, run in the project folder.
    pub install: Option<(String, Vec<String>)>,
}

/// The project name for a folder: its last component, or `my-project`.
pub open spec fn project_name_of(path: Seq<char>, windows: bool) -> Seq<char> {
    match paths::file_name(path, windows) {
        Some(n) => n,
        None => "my-project"@,
    }
}

/// The arguments with `{name}` replaced by the project name.
pub open spec fn named_args(args: Seq<Seq<char>>, name: Seq<char>) -> Seq<Seq<char>> {
    args.map_values(|a: Seq<char>| text::replace_all(a, "{name}"@, name))
}

fn to_strings(v: &Vec<&'static str>) -> (r: Vec<String>)
    ensures
        text::views(r@) == str_views(v@),
{
    let mut out: Vec<String> = Vec::new();
    let mut i: usize = 0;
    while i < v.len()
        invariant
            i <= v.len(),
            out.len() == i,
            forall|j: int| 0 <= j < i ==> #[trigger] out@[j]@ == v@[j]@,
        decreases v.len() - i,
    {
        out.push(String::from_str(v[i]));
        i = i + 1;
    }
    assert(text::views(out@) =~= str_views(v@));
    out
}

/// How scaffold `index` is run for the project folder `project_path`, with
/// paths read as on Windows where `windows` holds.
pub fn scaffold_plan(index: usize, project_path: &str, windows: bool) -> (p: ScaffoldPlan)
    requires
        index < framework_table().len(),
    ensures
        ({
            let f = framework_table()[index as int];
            let name = project_name_of(project_path@, windows);
            &&& p.project_name@ == name
            &&& p.create_dir == !f.create_own_dir
            &&& p.run_dir@ == if f.create_own_dir {
                match paths::parent(project_path@, windows) {
                    Some(d) => d,
                    None => project_path@,
                }
            } else {
                project_path@
            }
            &&& p.cmd@ == f.cmd
            &&& text::views(p.args@) == named_args(f.args, name)
            &&& match f.install {
                Some((c, a)) => p.install matches Some((pc, pa)) && pc@ == c && text::views(pa@)
                    == a,
                None => p.install is None,
            }
        }),
{
    let table = frameworks();
    let fw = &table[index];
    assert(framework_view(*fw) == framework_table()[index as int]);
    let project_name = match paths::file_name_of(project_path, windows) {
        Some(n) => n,
        None => String::from_str("my-project"),
    };
    let mut args: Vec<String> = Vec::new();
    let mut i: usize = 0;
    proof {
        reveal_strlit("{name}");
    }
    while i < fw.args.len()
        invariant
            i <= fw.args.len(),
            "{name}"@.len() > 0,
            args.len() == i,
            forall|j: int|
                0 <= j < i ==> #[trigger] args@[j]@ == text::replace_all(
                    fw.args@[j]@,
                    "{name}"@,
                    project_name@,
                ),
        decreases fw.args.len() - i,
    {
        args.push(text::replace_str(fw.args[i], "{name}", project_name.as_str()));
        i = i + 1;
    }
    assert(text::views(args@) =~= named_args(str_views(fw.args@), project_name@));
    let run_dir = if fw.create_own_dir {
        match paths::parent_of(project_path, windows) {
            Some(d) => d,
            None => String::from_str(project_path),
        }
    } else {
        String::from_str(project_path)
    };
    let install = match &fw.install_cmd {
        Some((c, a)) => Some((String::from_str(c), to_strings(a))),
        None => None,
    };
    ScaffoldPlan {
        project_name,
        create_dir: !fw.create_own_dir,
        run_dir,
        cmd: String::from_str(fw.cmd),
        args,
        install,
    }
}

/// A scaffold is offered only where its tool is installed, and every
/// scaffold whose tool is installed is offered, in table order.
pub proof fn law_available_exactly_installed(table: Seq<FrameworkView>, installed: Seq<Seq<char>>)
    ensures
        forall|k: int|
            0 <= k < available(table, installed).len() ==> 0 <= #[trigger] available(
                table,
                installed,
            )[k] < table.len() && installed.contains(
                check_tool(table[available(table, installed)[k]]),
            ),
        forall|i: int|
            0 <= i < table.len() && installed.contains(check_tool(#[trigger] table[i])) ==> available(
                table,
                installed,
            ).contains(i),
        forall|k: int, l: int|
            0 <= k < l < available(table, installed).len() ==> #[trigger] available(
                table,
                installed,
            )[k] < #[trigger] available(table, installed)[l],
    decreases table.len(),
{
    if table.len() > 0 {
        let rest = table.drop_last();
        law_available_exactly_installed(rest, installed);
        let a = available(rest, installed);
        let r = available(table, installed);
        assert forall|k: int| 0 <= k < a.len() implies #[trigger] a[k] < rest.len() by {}
        assert forall|k: int| 0 <= k < r.len() implies 0 <= #[trigger] r[k] < table.len()
            && installed.contains(check_tool(table[r[k]])) by {
            if k < a.len() {
                assert(r[k] == a[k]);
                assert(table[a[k]] == rest[a[k]]);
            }
        }
        assert forall|i: int|
            0 <= i < table.len() && installed.contains(check_tool(#[trigger] table[i])) implies r.contains(
            i,
        ) by {
            if i < table.len() - 1 {
                assert(table[i] == rest[i]);
                assert(rest[i] == table[i]);
                assert(installed.contains(check_tool(rest[i])));
                let k = choose|k: int| 0 <= k < a.len() && a[k] == i;
                assert(r[k] == i);
            } else {
                assert(r[a.len() as int] == i);
            }
        }
    }
}

} // verus!
