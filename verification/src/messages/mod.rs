pub mod glossary;
