//! What the interactive frame shows: the help text of each step and where
//! the frame's parts go on the terminal.
use vstd::prelude::*;

use crate::text::{contains_seq, matches_at, str_contains, str_eq, strings, strings_view};

verus! {

/// The help lines of each step, if it has any.
pub open spec fn step_context_spec(step: Seq<char>) -> Option<Seq<Seq<char>>> {
    if step == "Selección de template"@ {
        Some(
            seq![
                "Los templates definen el entorno de desarrollo base."@,
                "Incluyen el sistema operativo, herramientas y configuraciones predefinidas."@,
                "Elegí uno acorde al stack tecnológico de tu proyecto."@,
            ],
        )
    } else if step == "Nombre del proyecto"@ {
        Some(
            seq![
                "Este nombre se usará para carpetas y configuraciones internas."@,
                "Por defecto se sugiere el nombre del directorio actual."@,
            ],
        )
    } else if step == "Ubicación del devcontainer"@ {
        Some(
            seq![
                "Indicá dónde querés que se generen los archivos del devcontainer."@,
                "Se creará la carpeta si no existe."@,
            ],
        )
    } else if step == "Configuración de Git"@ {
        Some(
            seq![
                "Estos datos se usarán para configurar git dentro del contenedor."@,
                "Son opcionales; si los omitís, podés configurarlos después."@,
            ],
        )
    } else if step == "Configuración de seguridad"@ {
        Some(
            seq![
                "Definí cómo se gestionan los usuarios y permisos dentro del contenedor."@,
                "Developer: usuario común con sudo sin contraseña."@,
                "Secure: usuario común sin sudo."@,
                "Root: todo se ejecuta como root."@,
            ],
        )
    } else if step == "Configuración de red"@ {
        Some(
            seq![
                "Definí cómo se conecta el contenedor a la red."@,
                "Bridge: red aislada con port mapping (más seguro, recomendado)."@,
                "Host: comparte la red del host directamente (máximo rendimiento, sin aislamiento)."@,
                "None: contenedor sin acceso a la red (máximo aislamiento)."@,
            ],
        )
    } else if contains_seq(step, "Usuario de desarrollo"@) || step == "Usuario de desarrollo"@ {
        Some(
            seq![
                "REMOTE_USER es el usuario con el que VS Code se conecta al contenedor."@,
                "Este usuario tendrá permisos para trabajar con el código fuente."@,
                "Por defecto: 'developer', 'node' (Node.js) o 'root' (Android)."@,
            ],
        )
    } else if contains_seq(step, "Contraseñas del contenedor"@) || step
        == "Contraseñas del contenedor"@ {
        Some(
            seq![
                "Podés definir contraseñas personalizadas o dejar que se generen automáticamente."@,
                "Se necesitan dos contraseñas: una para el usuario de desarrollo y otra para root."@,
                "Las contraseñas auto-generadas tienen 12 caracteres alfanuméricos."@,
            ],
        )
    } else if contains_seq(step, "Contraseña de root"@) || step == "Contraseña de root"@ {
        Some(
            seq![
                "Esta contraseña permite acceder como root dentro del contenedor."@,
                "Es útil para instalar paquetes del sistema o modificar configuraciones."@,
                "Presioná Enter sin escribir para auto-generar una segura."@,
            ],
        )
    } else if contains_seq(step, "Privilegios sudo"@) || step == "Privilegios sudo"@ {
        Some(
            seq![
                "NOPASSWD: el usuario puede usar sudo sin ingresar contraseña."@,
                "Password: se requiere contraseña para cada comando sudo."@,
                "None: el usuario no tiene acceso a sudo."@,
            ],
        )
    } else if contains_seq(step, "Guardar credenciales"@) || step == "Guardar credenciales"@ {
        Some(
            seq![
                "Las credenciales se guardan en ~/.devc/credentials/<proyecto>.json"@,
                "El archivo tiene permisos 600 (solo lectura para el dueño)."@,
                "Útil para recordar contraseñas generadas automáticamente."@,
            ],
        )
    } else if contains_seq(step, "Personalizar versiones"@) || step == "Personalizar versiones"@ {
        Some(
            seq![
                "Podés cambiar las versiones de herramientas definidas en el Dockerfile."@,
                "Por ejemplo: versión de Node, Java, Android SDK, etc."@,
                "Las versiones seleccionadas se inyectan durante la construcción."@,
            ],
        )
    } else {
        None
    }
}

/// The steps whose help is found by name alone, in the order they are looked up.
pub open spec fn exact_steps() -> Seq<Seq<char>> {
    seq!["Selección de template"@, "Nombre del proyecto"@, "Ubicación del devcontainer"@, "Configuración de Git"@, "Configuración de seguridad"@, "Configuración de red"@]
}

/// The keys that find a step's help anywhere in its name, in the order they
/// are looked up.
pub open spec fn keyed_steps() -> Seq<Seq<char>> {
    seq!["Usuario de desarrollo"@, "Contraseñas del contenedor"@, "Contraseña de root"@, "Privilegios sudo"@, "Guardar credenciales"@, "Personalizar versiones"@]
}

/// `s` does not contain `p` when no position of `s` starts with the first
/// two characters of `p`.
proof fn lemma_not_contains(s: Seq<char>, p: Seq<char>)
    requires
        p.len() >= 2,
        forall|i: int| 0 <= i < s.len() - 1 ==> #[trigger] s[i] != p[0] || s[i + 1] != p[1],
    ensures
        !contains_seq(s, p),
{
    if contains_seq(s, p) {
        let i = choose|i: int| matches_at(s, p, i);
        assert(s.subrange(i, i + p.len())[0] == p[0]);
        assert(s.subrange(i, i + p.len())[1] == p[1]);
        assert(s[i] == p[0] && s[i + 1] == p[1]);
    }
}

/// No key is one of the steps found by name.
proof fn lemma_keys_not_exact()
    ensures
        forall|t: int| 0 <= t < 6 ==> !exact_steps().contains(#[trigger] keyed_steps()[t]),
{
    reveal_strlit("Usuario de desarrollo");
    reveal_strlit("Contraseñas del contenedor");
    reveal_strlit("Contraseña de root");
    reveal_strlit("Privilegios sudo");
    reveal_strlit("Guardar credenciales");
    reveal_strlit("Personalizar versiones");
    reveal_strlit("Selección de template");
    reveal_strlit("Nombre del proyecto");
    reveal_strlit("Ubicación del devcontainer");
    reveal_strlit("Configuración de Git");
    reveal_strlit("Configuración de seguridad");
    reveal_strlit("Configuración de red");
    assert("Usuario de desarrollo"@[0] != "Selección de template"@[0]);
    assert("Usuario de desarrollo"@.len() != "Nombre del proyecto"@.len());
    assert("Usuario de desarrollo"@.len() != "Ubicación del devcontainer"@.len());
    assert("Usuario de desarrollo"@.len() != "Configuración de Git"@.len());
    assert("Usuario de desarrollo"@.len() != "Configuración de seguridad"@.len());
    assert("Usuario de desarrollo"@.len() != "Configuración de red"@.len());
    assert("Contraseñas del contenedor"@.len() != "Selección de template"@.len());
    assert("Contraseñas del contenedor"@.len() != "Nombre del proyecto"@.len());
    assert("Contraseñas del contenedor"@[0] != "Ubicación del devcontainer"@[0]);
    assert("Contraseñas del contenedor"@.len() != "Configuración de Git"@.len());
    assert("Contraseñas del contenedor"@[3] != "Configuración de seguridad"@[3]);
    assert("Contraseñas del contenedor"@.len() != "Configuración de red"@.len());
    assert("Contraseña de root"@.len() != "Selección de template"@.len());
    assert("Contraseña de root"@.len() != "Nombre del proyecto"@.len());
    assert("Contraseña de root"@.len() != "Ubicación del devcontainer"@.len());
    assert("Contraseña de root"@.len() != "Configuración de Git"@.len());
    assert("Contraseña de root"@.len() != "Configuración de seguridad"@.len());
    assert("Contraseña de root"@.len() != "Configuración de red"@.len());
    assert("Privilegios sudo"@.len() != "Selección de template"@.len());
    assert("Privilegios sudo"@.len() != "Nombre del proyecto"@.len());
    assert("Privilegios sudo"@.len() != "Ubicación del devcontainer"@.len());
    assert("Privilegios sudo"@.len() != "Configuración de Git"@.len());
    assert("Privilegios sudo"@.len() != "Configuración de seguridad"@.len());
    assert("Privilegios sudo"@.len() != "Configuración de red"@.len());
    assert("Guardar credenciales"@.len() != "Selección de template"@.len());
    assert("Guardar credenciales"@.len() != "Nombre del proyecto"@.len());
    assert("Guardar credenciales"@.len() != "Ubicación del devcontainer"@.len());
    assert("Guardar credenciales"@[0] != "Configuración de Git"@[0]);
    assert("Guardar credenciales"@.len() != "Configuración de seguridad"@.len());
    assert("Guardar credenciales"@[0] != "Configuración de red"@[0]);
    assert("Personalizar versiones"@.len() != "Selección de template"@.len());
    assert("Personalizar versiones"@.len() != "Nombre del proyecto"@.len());
    assert("Personalizar versiones"@.len() != "Ubicación del devcontainer"@.len());
    assert("Personalizar versiones"@.len() != "Configuración de Git"@.len());
    assert("Personalizar versiones"@.len() != "Configuración de seguridad"@.len());
    assert("Personalizar versiones"@.len() != "Configuración de red"@.len());
    let k = keyed_steps();
    let e = exact_steps();
    assert forall|t: int| 0 <= t < 6 implies !e.contains(#[trigger] k[t]) by {
        assert(forall|j: int| 0 <= j < 6 ==> #[trigger] e[j] != k[t]);
    }
}

/// Every key contains itself.
proof fn lemma_keys_contain_themselves()
    ensures
        forall|t: int| 0 <= t < 6 ==> contains_seq(#[trigger] keyed_steps()[t], keyed_steps()[t]),
{
    let k = keyed_steps();
    assert forall|t: int| 0 <= t < 6 implies contains_seq(#[trigger] k[t], k[t]) by {
        assert(k[t].subrange(0, k[t].len() as int) == k[t]);
        assert(matches_at(k[t], k[t], 0));
    }
}

#[verifier::spinoff_prover]
proof fn lemma_key_1_lacks_0()
    ensures
        !contains_seq("Contraseñas del contenedor"@, "Usuario de desarrollo"@),
{
    reveal_strlit("Contraseñas del contenedor");
    reveal_strlit("Usuario de desarrollo");
    lemma_not_contains("Contraseñas del contenedor"@, "Usuario de desarrollo"@);
}

#[verifier::spinoff_prover]
proof fn lemma_key_4_lacks_2()
    ensures
        !contains_seq("Guardar credenciales"@, "Contraseña de root"@),
{
    reveal_strlit("Guardar credenciales");
    reveal_strlit("Contraseña de root");
    lemma_not_contains("Guardar credenciales"@, "Contraseña de root"@);
}

#[verifier::spinoff_prover]
proof fn lemma_key_4_lacks_3()
    ensures
        !contains_seq("Guardar credenciales"@, "Privilegios sudo"@),
{
    reveal_strlit("Guardar credenciales");
    reveal_strlit("Privilegios sudo");
    lemma_not_contains("Guardar credenciales"@, "Privilegios sudo"@);
}

#[verifier::spinoff_prover]
proof fn lemma_key_5_lacks_0()
    ensures
        !contains_seq("Personalizar versiones"@, "Usuario de desarrollo"@),
{
    reveal_strlit("Personalizar versiones");
    reveal_strlit("Usuario de desarrollo");
    lemma_not_contains("Personalizar versiones"@, "Usuario de desarrollo"@);
}

#[verifier::spinoff_prover]
proof fn lemma_key_5_lacks_2()
    ensures
        !contains_seq("Personalizar versiones"@, "Contraseña de root"@),
{
    reveal_strlit("Personalizar versiones");
    reveal_strlit("Contraseña de root");
    lemma_not_contains("Personalizar versiones"@, "Contraseña de root"@);
}

#[verifier::spinoff_prover]
proof fn lemma_key_5_lacks_3()
    ensures
        !contains_seq("Personalizar versiones"@, "Privilegios sudo"@),
{
    reveal_strlit("Personalizar versiones");
    reveal_strlit("Privilegios sudo");
    lemma_not_contains("Personalizar versiones"@, "Privilegios sudo"@);
}

#[verifier::spinoff_prover]
proof fn lemma_key_5_lacks_4()
    ensures
        !contains_seq("Personalizar versiones"@, "Guardar credenciales"@),
{
    reveal_strlit("Personalizar versiones");
    reveal_strlit("Guardar credenciales");
    lemma_not_contains("Personalizar versiones"@, "Guardar credenciales"@);
}

/// No key contains a key looked up before it.
proof fn lemma_keys_apart()
    ensures
        forall|t: int, u: int|
            0 <= u < t < 6 ==> !contains_seq(#[trigger] keyed_steps()[t], #[trigger] keyed_steps()[u]),
{
    reveal_strlit("Usuario de desarrollo");
    reveal_strlit("Contraseñas del contenedor");
    reveal_strlit("Contraseña de root");
    reveal_strlit("Privilegios sudo");
    reveal_strlit("Guardar credenciales");
    reveal_strlit("Personalizar versiones");
    lemma_key_1_lacks_0();
    assert("Contraseña de root"@.len() < "Usuario de desarrollo"@.len());
    assert("Contraseña de root"@.len() < "Contraseñas del contenedor"@.len());
    assert("Privilegios sudo"@.len() < "Usuario de desarrollo"@.len());
    assert("Privilegios sudo"@.len() < "Contraseñas del contenedor"@.len());
    assert("Privilegios sudo"@.len() < "Contraseña de root"@.len());
    assert("Guardar credenciales"@.len() < "Usuario de desarrollo"@.len());
    assert("Guardar credenciales"@.len() < "Contraseñas del contenedor"@.len());
    lemma_key_4_lacks_2();
    lemma_key_4_lacks_3();
    lemma_key_5_lacks_0();
    assert("Personalizar versiones"@.len() < "Contraseñas del contenedor"@.len());
    lemma_key_5_lacks_2();
    lemma_key_5_lacks_3();
    lemma_key_5_lacks_4();
    let k = keyed_steps();
    assert forall|t: int, u: int| 0 <= u < t < 6 implies !contains_seq(
        #[trigger] k[t],
        #[trigger] k[u],
    ) by {
        if k[u].len() > k[t].len() {
            if contains_seq(k[t], k[u]) {
                let i = choose|i: int| matches_at(k[t], k[u], i);
            }
        }
    }
}

/// `s` does not contain `p` when no position of `s` starts with the first
/// four characters of `p`.
proof fn lemma_not_contains4(s: Seq<char>, p: Seq<char>)
    requires
        p.len() >= 4,
        forall|i: int|
            0 <= i < s.len() - 3 ==> #[trigger] s[i] != p[0] || s[i + 1] != p[1] || s[i + 2] != p[2]
                || s[i + 3] != p[3],
    ensures
        !contains_seq(s, p),
{
    if contains_seq(s, p) {
        let i = choose|i: int| matches_at(s, p, i);
        let w = s.subrange(i, i + p.len());
        assert(w[0] == p[0] && w[1] == p[1] && w[2] == p[2] && w[3] == p[3]);
        assert(s[i] == p[0] && s[i + 1] == p[1] && s[i + 2] == p[2] && s[i + 3] == p[3]);
    }
}

#[verifier::spinoff_prover]
proof fn lemma_exact_0_lacks_key_0()
    ensures
        !contains_seq("Selección de template"@, "Usuario de desarrollo"@),
{
    reveal_strlit("Selección de template");
    reveal_strlit("Usuario de desarrollo");
    lemma_not_contains4("Selección de template"@, "Usuario de desarrollo"@);
}

#[verifier::spinoff_prover]
proof fn lemma_exact_0_lacks_key_2()
    ensures
        !contains_seq("Selección de template"@, "Contraseña de root"@),
{
    reveal_strlit("Selección de template");
    reveal_strlit("Contraseña de root");
    lemma_not_contains4("Selección de template"@, "Contraseña de root"@);
}

#[verifier::spinoff_prover]
proof fn lemma_exact_0_lacks_key_3()
    ensures
        !contains_seq("Selección de template"@, "Privilegios sudo"@),
{
    reveal_strlit("Selección de template");
    reveal_strlit("Privilegios sudo");
    lemma_not_contains4("Selección de template"@, "Privilegios sudo"@);
}

#[verifier::spinoff_prover]
proof fn lemma_exact_0_lacks_key_4()
    ensures
        !contains_seq("Selección de template"@, "Guardar credenciales"@),
{
    reveal_strlit("Selección de template");
    reveal_strlit("Guardar credenciales");
    lemma_not_contains4("Selección de template"@, "Guardar credenciales"@);
}

#[verifier::spinoff_prover]
proof fn lemma_exact_1_lacks_key_2()
    ensures
        !contains_seq("Nombre del proyecto"@, "Contraseña de root"@),
{
    reveal_strlit("Nombre del proyecto");
    reveal_strlit("Contraseña de root");
    lemma_not_contains4("Nombre del proyecto"@, "Contraseña de root"@);
}

#[verifier::spinoff_prover]
proof fn lemma_exact_1_lacks_key_3()
    ensures
        !contains_seq("Nombre del proyecto"@, "Privilegios sudo"@),
{
    reveal_strlit("Nombre del proyecto");
    reveal_strlit("Privilegios sudo");
    lemma_not_contains4("Nombre del proyecto"@, "Privilegios sudo"@);
}

#[verifier::spinoff_prover]
proof fn lemma_exact_2_lacks_key_0()
    ensures
        !contains_seq("Ubicación del devcontainer"@, "Usuario de desarrollo"@),
{
    reveal_strlit("Ubicación del devcontainer");
    reveal_strlit("Usuario de desarrollo");
    lemma_not_contains4("Ubicación del devcontainer"@, "Usuario de desarrollo"@);
}

#[verifier::spinoff_prover]
proof fn lemma_exact_2_lacks_key_1()
    ensures
        !contains_seq("Ubicación del devcontainer"@, "Contraseñas del contenedor"@),
{
    reveal_strlit("Ubicación del devcontainer");
    reveal_strlit("Contraseñas del contenedor");
    lemma_not_contains4("Ubicación del devcontainer"@, "Contraseñas del contenedor"@);
}

#[verifier::spinoff_prover]
proof fn lemma_exact_2_lacks_key_2()
    ensures
        !contains_seq("Ubicación del devcontainer"@, "Contraseña de root"@),
{
    reveal_strlit("Ubicación del devcontainer");
    reveal_strlit("Contraseña de root");
    lemma_not_contains4("Ubicación del devcontainer"@, "Contraseña de root"@);
}

#[verifier::spinoff_prover]
proof fn lemma_exact_2_lacks_key_3()
    ensures
        !contains_seq("Ubicación del devcontainer"@, "Privilegios sudo"@),
{
    reveal_strlit("Ubicación del devcontainer");
    reveal_strlit("Privilegios sudo");
    lemma_not_contains4("Ubicación del devcontainer"@, "Privilegios sudo"@);
}

#[verifier::spinoff_prover]
proof fn lemma_exact_2_lacks_key_4()
    ensures
        !contains_seq("Ubicación del devcontainer"@, "Guardar credenciales"@),
{
    reveal_strlit("Ubicación del devcontainer");
    reveal_strlit("Guardar credenciales");
    lemma_not_contains4("Ubicación del devcontainer"@, "Guardar credenciales"@);
}

#[verifier::spinoff_prover]
proof fn lemma_exact_2_lacks_key_5()
    ensures
        !contains_seq("Ubicación del devcontainer"@, "Personalizar versiones"@),
{
    reveal_strlit("Ubicación del devcontainer");
    reveal_strlit("Personalizar versiones");
    lemma_not_contains4("Ubicación del devcontainer"@, "Personalizar versiones"@);
}

#[verifier::spinoff_prover]
proof fn lemma_exact_3_lacks_key_2()
    ensures
        !contains_seq("Configuración de Git"@, "Contraseña de root"@),
{
    reveal_strlit("Configuración de Git");
    reveal_strlit("Contraseña de root");
    lemma_not_contains4("Configuración de Git"@, "Contraseña de root"@);
}

#[verifier::spinoff_prover]
proof fn lemma_exact_3_lacks_key_3()
    ensures
        !contains_seq("Configuración de Git"@, "Privilegios sudo"@),
{
    reveal_strlit("Configuración de Git");
    reveal_strlit("Privilegios sudo");
    lemma_not_contains4("Configuración de Git"@, "Privilegios sudo"@);
}

#[verifier::spinoff_prover]
proof fn lemma_exact_3_lacks_key_4()
    ensures
        !contains_seq("Configuración de Git"@, "Guardar credenciales"@),
{
    reveal_strlit("Configuración de Git");
    reveal_strlit("Guardar credenciales");
    lemma_not_contains4("Configuración de Git"@, "Guardar credenciales"@);
}

#[verifier::spinoff_prover]
proof fn lemma_exact_4_lacks_key_0()
    ensures
        !contains_seq("Configuración de seguridad"@, "Usuario de desarrollo"@),
{
    reveal_strlit("Configuración de seguridad");
    reveal_strlit("Usuario de desarrollo");
    lemma_not_contains4("Configuración de seguridad"@, "Usuario de desarrollo"@);
}

#[verifier::spinoff_prover]
proof fn lemma_exact_4_lacks_key_1()
    ensures
        !contains_seq("Configuración de seguridad"@, "Contraseñas del contenedor"@),
{
    reveal_strlit("Configuración de seguridad");
    reveal_strlit("Contraseñas del contenedor");
    lemma_not_contains4("Configuración de seguridad"@, "Contraseñas del contenedor"@);
}

#[verifier::spinoff_prover]
proof fn lemma_exact_4_lacks_key_2()
    ensures
        !contains_seq("Configuración de seguridad"@, "Contraseña de root"@),
{
    reveal_strlit("Configuración de seguridad");
    reveal_strlit("Contraseña de root");
    lemma_not_contains4("Configuración de seguridad"@, "Contraseña de root"@);
}

#[verifier::spinoff_prover]
proof fn lemma_exact_4_lacks_key_3()
    ensures
        !contains_seq("Configuración de seguridad"@, "Privilegios sudo"@),
{
    reveal_strlit("Configuración de seguridad");
    reveal_strlit("Privilegios sudo");
    lemma_not_contains4("Configuración de seguridad"@, "Privilegios sudo"@);
}

#[verifier::spinoff_prover]
proof fn lemma_exact_4_lacks_key_4()
    ensures
        !contains_seq("Configuración de seguridad"@, "Guardar credenciales"@),
{
    reveal_strlit("Configuración de seguridad");
    reveal_strlit("Guardar credenciales");
    lemma_not_contains4("Configuración de seguridad"@, "Guardar credenciales"@);
}

#[verifier::spinoff_prover]
proof fn lemma_exact_4_lacks_key_5()
    ensures
        !contains_seq("Configuración de seguridad"@, "Personalizar versiones"@),
{
    reveal_strlit("Configuración de seguridad");
    reveal_strlit("Personalizar versiones");
    lemma_not_contains4("Configuración de seguridad"@, "Personalizar versiones"@);
}

#[verifier::spinoff_prover]
proof fn lemma_exact_5_lacks_key_2()
    ensures
        !contains_seq("Configuración de red"@, "Contraseña de root"@),
{
    reveal_strlit("Configuración de red");
    reveal_strlit("Contraseña de root");
    lemma_not_contains4("Configuración de red"@, "Contraseña de root"@);
}

#[verifier::spinoff_prover]
proof fn lemma_exact_5_lacks_key_3()
    ensures
        !contains_seq("Configuración de red"@, "Privilegios sudo"@),
{
    reveal_strlit("Configuración de red");
    reveal_strlit("Privilegios sudo");
    lemma_not_contains4("Configuración de red"@, "Privilegios sudo"@);
}

#[verifier::spinoff_prover]
proof fn lemma_exact_5_lacks_key_4()
    ensures
        !contains_seq("Configuración de red"@, "Guardar credenciales"@),
{
    reveal_strlit("Configuración de red");
    reveal_strlit("Guardar credenciales");
    lemma_not_contains4("Configuración de red"@, "Guardar credenciales"@);
}

/// No step found by name contains a key.
proof fn lemma_exact_steps_lack_keys()
    ensures
        forall|j: int, t: int|
            0 <= j < 6 && 0 <= t < 6 ==> !contains_seq(#[trigger] exact_steps()[j], #[trigger] keyed_steps()[t]),
{
    reveal_strlit("Usuario de desarrollo");
    reveal_strlit("Contraseñas del contenedor");
    reveal_strlit("Contraseña de root");
    reveal_strlit("Privilegios sudo");
    reveal_strlit("Guardar credenciales");
    reveal_strlit("Personalizar versiones");
    reveal_strlit("Selección de template");
    reveal_strlit("Nombre del proyecto");
    reveal_strlit("Ubicación del devcontainer");
    reveal_strlit("Configuración de Git");
    reveal_strlit("Configuración de seguridad");
    reveal_strlit("Configuración de red");
    lemma_exact_0_lacks_key_0();
    assert("Selección de template"@.len() < "Contraseñas del contenedor"@.len());
    lemma_exact_0_lacks_key_2();
    lemma_exact_0_lacks_key_3();
    lemma_exact_0_lacks_key_4();
    assert("Selección de template"@.len() < "Personalizar versiones"@.len());
    assert("Nombre del proyecto"@.len() < "Usuario de desarrollo"@.len());
    assert("Nombre del proyecto"@.len() < "Contraseñas del contenedor"@.len());
    lemma_exact_1_lacks_key_2();
    lemma_exact_1_lacks_key_3();
    assert("Nombre del proyecto"@.len() < "Guardar credenciales"@.len());
    assert("Nombre del proyecto"@.len() < "Personalizar versiones"@.len());
    lemma_exact_2_lacks_key_0();
    lemma_exact_2_lacks_key_1();
    lemma_exact_2_lacks_key_2();
    lemma_exact_2_lacks_key_3();
    lemma_exact_2_lacks_key_4();
    lemma_exact_2_lacks_key_5();
    assert("Configuración de Git"@.len() < "Usuario de desarrollo"@.len());
    assert("Configuración de Git"@.len() < "Contraseñas del contenedor"@.len());
    lemma_exact_3_lacks_key_2();
    lemma_exact_3_lacks_key_3();
    lemma_exact_3_lacks_key_4();
    assert("Configuración de Git"@.len() < "Personalizar versiones"@.len());
    lemma_exact_4_lacks_key_0();
    lemma_exact_4_lacks_key_1();
    lemma_exact_4_lacks_key_2();
    lemma_exact_4_lacks_key_3();
    lemma_exact_4_lacks_key_4();
    lemma_exact_4_lacks_key_5();
    assert("Configuración de red"@.len() < "Usuario de desarrollo"@.len());
    assert("Configuración de red"@.len() < "Contraseñas del contenedor"@.len());
    lemma_exact_5_lacks_key_2();
    lemma_exact_5_lacks_key_3();
    lemma_exact_5_lacks_key_4();
    assert("Configuración de red"@.len() < "Personalizar versiones"@.len());
    let k = keyed_steps();
    let e = exact_steps();
    assert forall|j: int, t: int| 0 <= j < 6 && 0 <= t < 6 implies !contains_seq(
        #[trigger] e[j],
        #[trigger] k[t],
    ) by {
        if k[t].len() > e[j].len() {
            if contains_seq(e[j], k[t]) {
                let i = choose|i: int| matches_at(e[j], k[t], i);
            }
        }
    }
}

/// A step gets the help of the first key its name contains (three lines);
/// a step that is none of the steps found by name and contains no key gets
/// no help.
pub proof fn lemma_step_context_by_key(step: Seq<char>, t: int)
    ensures
        0 <= t < 6 && contains_seq(step, keyed_steps()[t]) && (forall|u: int|
            0 <= u < t ==> !contains_seq(step, #[trigger] keyed_steps()[u])) ==> (step_context_spec(
            step,
        ) == step_context_spec(keyed_steps()[t]) && (step_context_spec(step) matches Some(l)
            && l.len() == 3)),
        !exact_steps().contains(step) && (forall|u: int|
            0 <= u < 6 ==> !contains_seq(step, #[trigger] keyed_steps()[u])) ==> step_context_spec(
            step,
        ) is None,
{
    lemma_exact_steps_lack_keys();
    lemma_keys_not_exact();
    lemma_keys_contain_themselves();
    lemma_keys_apart();
    let k = keyed_steps();
    let e = exact_steps();
    if 0 <= t < 6 && contains_seq(step, k[t]) {
        assert forall|j: int| 0 <= j < 6 implies step != #[trigger] e[j] by {
            if step == e[j] {
                assert(!contains_seq(e[j], k[t]));
            }
        }
    }
    if !e.contains(step) {
        assert(forall|j: int| 0 <= j < 6 ==> step != #[trigger] e[j]);
    }
    if 0 <= t < 6 {
        assert(!e.contains(k[t]));
        assert(forall|j: int| 0 <= j < 6 ==> k[t] != #[trigger] e[j]);
        assert(contains_seq(k[t], k[t]));
    }
    if forall|u: int| 0 <= u < 6 ==> !contains_seq(step, #[trigger] keyed_steps()[u]) {
        assert(!contains_seq(step, k[0]) && !contains_seq(step, k[1]) && !contains_seq(step, k[2]));
        assert(!contains_seq(step, k[3]) && !contains_seq(step, k[4]) && !contains_seq(step, k[5]));
        assert(forall|u: int| 0 <= u < 6 ==> step != #[trigger] k[u]);
    }
}

/// The help lines of a step (see `step_context_spec`).
pub fn get_step_context(step: &str) -> (r: Option<Vec<String>>)
    ensures
        match r {
            Some(v) => step_context_spec(step@) == Some(strings_view(v@)),
            None => step_context_spec(step@) is None,
        },
{
    let items: &[&str] = if str_eq(step, "Selección de template") {
        &[
            "Los templates definen el entorno de desarrollo base.",
            "Incluyen el sistema operativo, herramientas y configuraciones predefinidas.",
            "Elegí uno acorde al stack tecnológico de tu proyecto.",
        ]
    } else if str_eq(step, "Nombre del proyecto") {
        &[
            "Este nombre se usará para carpetas y configuraciones internas.",
            "Por defecto se sugiere el nombre del directorio actual.",
        ]
    } else if str_eq(step, "Ubicación del devcontainer") {
        &[
            "Indicá dónde querés que se generen los archivos del devcontainer.",
            "Se creará la carpeta si no existe.",
        ]
    } else if str_eq(step, "Configuración de Git") {
        &[
            "Estos datos se usarán para configurar git dentro del contenedor.",
            "Son opcionales; si los omitís, podés configurarlos después.",
        ]
    } else if str_eq(step, "Configuración de seguridad") {
        &[
            "Definí cómo se gestionan los usuarios y permisos dentro del contenedor.",
            "Developer: usuario común con sudo sin contraseña.",
            "Secure: usuario común sin sudo.",
            "Root: todo se ejecuta como root.",
        ]
    } else if str_eq(step, "Configuración de red") {
        &[
            "Definí cómo se conecta el contenedor a la red.",
            "Bridge: red aislada con port mapping (más seguro, recomendado).",
            "Host: comparte la red del host directamente (máximo rendimiento, sin aislamiento).",
            "None: contenedor sin acceso a la red (máximo aislamiento).",
        ]
    } else if str_contains(step, "Usuario de desarrollo") || str_eq(step, "Usuario de desarrollo") {
        &[
            "REMOTE_USER es el usuario con el que VS Code se conecta al contenedor.",
            "Este usuario tendrá permisos para trabajar con el código fuente.",
            "Por defecto: 'developer', 'node' (Node.js) o 'root' (Android).",
        ]
    } else if str_contains(step, "Contraseñas del contenedor") || str_eq(
        step,
        "Contraseñas del contenedor",
    ) {
        &[
            "Podés definir contraseñas personalizadas o dejar que se generen automáticamente.",
            "Se necesitan dos contraseñas: una para el usuario de desarrollo y otra para root.",
            "Las contraseñas auto-generadas tienen 12 caracteres alfanuméricos.",
        ]
    } else if str_contains(step, "Contraseña de root") || str_eq(step, "Contraseña de root") {
        &[
            "Esta contraseña permite acceder como root dentro del contenedor.",
            "Es útil para instalar paquetes del sistema o modificar configuraciones.",
            "Presioná Enter sin escribir para auto-generar una segura.",
        ]
    } else if str_contains(step, "Privilegios sudo") || str_eq(step, "Privilegios sudo") {
        &[
            "NOPASSWD: el usuario puede usar sudo sin ingresar contraseña.",
            "Password: se requiere contraseña para cada comando sudo.",
            "None: el usuario no tiene acceso a sudo.",
        ]
    } else if str_contains(step, "Guardar credenciales") || str_eq(step, "Guardar credenciales") {
        &[
            "Las credenciales se guardan en ~/.devc/credentials/<proyecto>.json",
            "El archivo tiene permisos 600 (solo lectura para el dueño).",
            "Útil para recordar contraseñas generadas automáticamente.",
        ]
    } else if str_contains(step, "Personalizar versiones") || str_eq(step, "Personalizar versiones") {
        &[
            "Podés cambiar las versiones de herramientas definidas en el Dockerfile.",
            "Por ejemplo: versión de Node, Java, Android SDK, etc.",
            "Las versiones seleccionadas se inyectan durante la construcción.",
        ]
    } else {
        return None;
    };
    let v = strings(items);
    assert(strings_view(v@) =~= step_context_spec(step@)->0);
    Some(v)
}

/// The help lines shown in the help box of a step: its context, or a line
/// saying there is nothing more.
pub open spec fn help_content_spec(step: Seq<char>) -> Seq<Seq<char>> {
    match step_context_spec(step) {
        Some(lines) => lines,
        None => seq!["No hay información adicional para este paso."@],
    }
}

/// The help lines shown in the help box of a step.
pub fn help_content(step: &str) -> (r: Vec<String>)
    ensures
        strings_view(r@) == help_content_spec(step@),
{
    match get_step_context(step) {
        Some(v) => v,
        None => {
            let v = strings(&["No hay información adicional para este paso."]);
            assert(strings_view(v@) =~= help_content_spec(step@));
            v
        },
    }
}

/// Where the help box goes: its inner width and its height, and the row and
/// column of its top-left corner.
#[derive(Debug, PartialEq, Eq, Structural)]
pub struct HelpBoxLayout {
    pub width: usize,
    pub height: usize,
    pub row: usize,
    pub col: usize,
}

/// The length in bytes of a string (`str::len`).
pub open spec fn byte_len(s: Seq<char>) -> nat {
    (vstd::utf8::encode_utf8(s).len() as usize) as nat
}

/// The length in bytes (UTF-8) of the longest line, if any.
pub open spec fn longest_line(lines: Seq<Seq<char>>) -> Option<nat>
    decreases lines.len(),
{
    if lines.len() == 0 {
        None
    } else {
        let l = byte_len(lines.last());
        match longest_line(lines.drop_last()) {
            Some(m) => Some(if l > m {
                l
            } else {
                m
            }),
            None => Some(l),
        }
    }
}

/// `a - b`, or 0 when `b` is larger.
pub open spec fn sat_sub(a: int, b: int) -> int {
    if a >= b {
        a - b
    } else {
        0
    }
}

/// The box is as wide as its longest line (in bytes), at least 40 and at most
/// eight columns narrower than the terminal; it is four lines taller than its
/// text, and centred.
pub open spec fn help_box_spec(lines: Seq<Seq<char>>, rows: int, cols: int) -> HelpBoxLayout {
    let wanted = match longest_line(lines) {
        Some(m) => m as int,
        None => 40,
    };
    let max = sat_sub(cols, 8);
    let width = if wanted < 40 {
        40
    } else if wanted > max {
        max
    } else {
        wanted
    };
    let height = lines.len() as int + 4;
    HelpBoxLayout {
        width: width as usize,
        height: height as usize,
        row: (sat_sub(rows, height) / 2) as usize,
        col: (sat_sub(cols, width) / 2) as usize,
    }
}

/// Where the help box of some lines goes on a terminal of `rows` by `cols`
/// (see `help_box_spec`). The terminal must be at least 48 columns wide.
pub fn help_box_layout(lines: &Vec<String>, rows: u16, cols: u16) -> (r: HelpBoxLayout)
    requires
        cols >= 48,
        lines@.len() + 4 <= usize::MAX,
    ensures
        r == help_box_spec(strings_view(lines@), rows as int, cols as int),
        r.col + r.width <= cols,
        r.height <= rows ==> r.row + r.height <= rows,
{
    let ghost lv = strings_view(lines@);
    let mut longest: Option<usize> = None;
    let mut i: usize = 0;
    while i < lines.len()
        invariant
            i <= lines@.len(),
            lv == strings_view(lines@),
            match longest {
                Some(m) => longest_line(lv.take(i as int)) == Some(m as nat),
                None => longest_line(lv.take(i as int)) is None,
            },
        decreases lines.len() - i,
    {
        let ls = lines[i].as_str();
        let l = ls.len();
        assert(l == byte_len(lines@[i as int]@));
        assert(lv.take(i + 1).drop_last() == lv.take(i as int));
        assert(lv.take(i + 1).last() == lines@[i as int]@);
        longest = match longest {
            Some(m) => Some(if l > m {
                l
            } else {
                m
            }),
            None => Some(l),
        };
        i += 1;
    }
    assert(lv.take(lines@.len() as int) == lv);
    let wanted = match longest {
        Some(m) => m,
        None => 40,
    };
    let max = (cols as usize).saturating_sub(8);
    let width = if wanted < 40 {
        40
    } else if wanted > max {
        max
    } else {
        wanted
    };
    let height = lines.len() + 4;
    let row = (rows as usize).saturating_sub(height) / 2;
    let col = (cols as usize).saturating_sub(width) / 2;
    HelpBoxLayout { width, height, row, col }
}

/// The rows of the frame on a terminal of `rows` lines.
#[derive(Debug, PartialEq, Eq, Structural)]
pub struct FrameRows {
    /// Where prompts start: row 7, or five rows above the bottom if higher.
    pub prompt: usize,
    /// Where the footer starts: three rows above the bottom.
    pub footer: usize,
    /// Where the cursor is left at the end: two rows above the bottom.
    pub cleanup: usize,
}

/// The rows of the frame on a terminal of `rows` lines.
pub fn frame_rows(rows: u16) -> (r: FrameRows)
    ensures
        r.prompt == if 7 <= sat_sub(rows as int, 5) {
            7
        } else {
            sat_sub(rows as int, 5)
        },
        r.footer == sat_sub(rows as int, 3),
        r.cleanup == sat_sub(rows as int, 2),
{
    let below = rows.saturating_sub(5) as usize;
    FrameRows {
        prompt: if 7 <= below {
            7
        } else {
            below
        },
        footer: rows.saturating_sub(3) as usize,
        cleanup: rows.saturating_sub(2) as usize,
    }
}

} // verus!
