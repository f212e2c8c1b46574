//! VaultCraft — núcleo verificado de backup, restauração e pacotes de pasta.
//!
//! O cofre guarda pastas, itens (notas, documentos, checklists), etiquetas e
//! anexos. Este núcleo produz e consome o arquivo `.vaultbackup`: um contêiner
//! ZIP com entradas nomeadas (`banco.sqlite` ou `dados.json`, `anexos/...` e,
//! por último, `manifesto.json`), cada uma protegida por um resumo SHA-256
//! registrado no manifesto. Toda a lógica de montagem, validação e extração é
//! verificada; a entrada e saída de disco, a consulta ao banco e a interface
//! gráfica ficam fora, como colaboradores externos que trocam valores simples
//! com esta biblioteca.

pub mod arquivo_zip;
pub mod backup;
pub mod cripto;
pub mod erro;
pub mod json;
pub mod manifesto;
pub mod modelo;
pub mod pacote;
pub mod texto;
